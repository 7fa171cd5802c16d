//! The integer side of sample conversion.
//!
//! A raw integer sample becomes a canonical sample by dividing it by the
//! greatest positive value of its format (`raw_max`), so the most negative
//! raw value maps slightly below -1; the asymmetry is accepted, not
//! corrected. A canonical sample becomes a raw integer sample by multiplying
//! it by `raw_max` of the target format and rounding to the nearest integer;
//! when the rounded value overflows the target's range it is saturated by
//! `saturate`, never wrapped. The float format converts by identity. The
//! multiplication, division and rounding act on floating-point values and
//! belong to the host program; the scale unit and the saturation step are
//! integer logic and live here.

use vstd::prelude::*;
use crate::sample_format::SampleFormat;

verus! {

/// The greatest positive raw value of an integer sample format: the scale
/// unit of conversion to and from the canonical representation. The float
/// format has no integer scale and yields `None`.
pub open spec fn spec_raw_max(format: SampleFormat) -> Option<i32> {
    match format {
        SampleFormat::F32 => None,
        SampleFormat::I32 => Some(0x7fff_ffff),
        SampleFormat::I16 => Some(0x7fff),
        SampleFormat::I8 => Some(0x7f),
    }
}

/// The greatest positive raw value of an integer sample format; `None` for
/// the float format, which converts by identity.
pub fn raw_max(format: SampleFormat) -> (r: Option<i32>)
    ensures
        r == spec_raw_max(format),
{
    match format {
        SampleFormat::F32 => None,
        SampleFormat::I32 => Some(0x7fff_ffff),
        SampleFormat::I16 => Some(0x7fff),
        SampleFormat::I8 => Some(0x7f),
    }
}

/// Where a rounded conversion result lands in `format`: clamped into the
/// representable range `[-raw_max - 1, raw_max]` of an integer format, and
/// passed through unchanged for the float format.
pub open spec fn spec_saturate(value: int, format: SampleFormat) -> int {
    match spec_raw_max(format) {
        None => value,
        Some(m) => if value > m as int {
            m as int
        } else if value < -(m as int) - 1 {
            -(m as int) - 1
        } else {
            value
        },
    }
}

/// Saturates a rounded conversion result to the representable range of the
/// target format: values above `raw_max` become `raw_max`, values below
/// `-raw_max - 1` become `-raw_max - 1`, everything else (and every value
/// bound for the float format) is unchanged. This is the overflow policy of
/// conversion from canonical samples: clamp, never wrap.
pub fn saturate(value: i64, format: SampleFormat) -> (r: i64)
    ensures
        r as int == spec_saturate(value as int, format),
{
    let m: i64 = match format {
        SampleFormat::F32 => return value,
        SampleFormat::I32 => 0x7fff_ffff,
        SampleFormat::I16 => 0x7fff,
        SampleFormat::I8 => 0x7f,
    };
    if value > m {
        m
    } else if value < -m - 1 {
        -m - 1
    } else {
        value
    }
}

} // verus!
