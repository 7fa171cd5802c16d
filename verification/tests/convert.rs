use audio_loopback::convert::{raw_max, saturate};
use audio_loopback::sample_format::SampleFormat;

/// Raw sample to canonical float: divide by the greatest positive raw value,
/// as the capture side does. The float format converts by identity.
fn to_canonical(raw: i64, format: SampleFormat) -> f32 {
    match raw_max(format) {
        Some(m) => raw as f32 / m as f32,
        None => raw as f32,
    }
}

/// Canonical float back to a raw sample: multiply by the greatest positive
/// raw value, round to nearest, saturate into the target range, as the
/// render side does.
fn from_canonical(sample: f32, format: SampleFormat) -> i64 {
    match raw_max(format) {
        Some(m) => saturate((sample as f64 * m as f64).round() as i64, format),
        None => sample.round() as i64,
    }
}

#[test]
fn raw_max_per_format() {
    assert_eq!(raw_max(SampleFormat::I8), Some(127));
    assert_eq!(raw_max(SampleFormat::I16), Some(32767));
    assert_eq!(raw_max(SampleFormat::I32), Some(2147483647));
    assert_eq!(raw_max(SampleFormat::F32), None);
}

#[test]
fn saturate_passes_values_in_range() {
    assert_eq!(saturate(0, SampleFormat::I16), 0);
    assert_eq!(saturate(32767, SampleFormat::I16), 32767);
    assert_eq!(saturate(-32768, SampleFormat::I16), -32768);
    assert_eq!(saturate(-5, SampleFormat::I8), -5);
}

#[test]
fn saturate_clamps_overflow() {
    assert_eq!(saturate(32768, SampleFormat::I16), 32767);
    assert_eq!(saturate(-32769, SampleFormat::I16), -32768);
    assert_eq!(saturate(1000, SampleFormat::I8), 127);
    assert_eq!(saturate(-1000, SampleFormat::I8), -128);
    assert_eq!(saturate(4000000000, SampleFormat::I32), 2147483647);
    assert_eq!(saturate(-4000000000, SampleFormat::I32), -2147483648);
}

#[test]
fn saturate_float_is_identity() {
    assert_eq!(saturate(123456789012, SampleFormat::F32), 123456789012);
    assert_eq!(saturate(-123456789012, SampleFormat::F32), -123456789012);
}

#[test]
fn round_trip_i8_every_value() {
    for raw in i8::MIN as i64..=i8::MAX as i64 {
        let back = from_canonical(to_canonical(raw, SampleFormat::I8), SampleFormat::I8);
        assert!((back - raw).abs() <= 1, "raw {} came back as {}", raw, back);
    }
}

#[test]
fn round_trip_i16_every_value() {
    for raw in i16::MIN as i64..=i16::MAX as i64 {
        let back = from_canonical(to_canonical(raw, SampleFormat::I16), SampleFormat::I16);
        assert!((back - raw).abs() <= 1, "raw {} came back as {}", raw, back);
    }
}

#[test]
fn round_trip_i32_representable_values() {
    // Raw values whose 32-bit float image is exact (or the extremes, where
    // saturation catches the rounding): the canonical stage is a 32-bit
    // float, so only its 24-bit mantissa survives the trip.
    let samples: [i64; 9] = [
        0,
        1,
        -1,
        256,
        -4096,
        8388608,
        -8388608,
        2147483647,
        -2147483648,
    ];
    for &raw in &samples {
        let back = from_canonical(to_canonical(raw, SampleFormat::I32), SampleFormat::I32);
        assert!((back - raw).abs() <= 1, "raw {} came back as {}", raw, back);
    }
}

#[test]
fn round_trip_f32_exact() {
    for &sample in &[0.0f32, 1.0, -1.0, 0.25, -0.75] {
        let canonical = to_canonical(sample.round() as i64, SampleFormat::F32);
        assert_eq!(canonical, sample.round());
    }
}

#[test]
fn conversion_scenario_int16_extremes() {
    // Greatest positive raw value maps to exactly 1.0 ...
    assert_eq!(to_canonical(32767, SampleFormat::I16), 1.0);
    // ... and the most negative maps slightly below -1: the asymmetric
    // signed range is accepted, not clamped, on the way to canonical.
    let low = to_canonical(-32768, SampleFormat::I16);
    assert!(low < -1.0);
    assert!((low - (-32768.0f32 / 32767.0f32)).abs() < 1e-9);
    assert!((low + 1.00003).abs() < 1e-4);
}

#[test]
fn from_canonical_saturates_out_of_range() {
    // 1.5 scales past the top of i8: the documented policy clamps instead of
    // wrapping.
    assert_eq!(from_canonical(1.5, SampleFormat::I8), 127);
    assert_eq!(from_canonical(-1.5, SampleFormat::I8), -128);
    assert_eq!(from_canonical(1.0, SampleFormat::I16), 32767);
}
