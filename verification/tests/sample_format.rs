use audio_loopback::audio_format::{
    LinearPcmFlags, IS_FLOAT, IS_NON_INTERLEAVED, IS_PACKED, IS_SIGNED_INTEGER,
};
use audio_loopback::sample_format::{compute_flags, Sample, SampleFormat};

#[test]
fn does_match_flags_float() {
    let float_flags = LinearPcmFlags::from_bits(IS_PACKED | IS_FLOAT);
    assert!(SampleFormat::F32.does_match_flags(float_flags));
    assert!(!SampleFormat::I32.does_match_flags(float_flags));
    assert!(!SampleFormat::I16.does_match_flags(float_flags));
    assert!(!SampleFormat::I8.does_match_flags(float_flags));
}

#[test]
fn does_match_flags_signed_integer() {
    let int_flags = LinearPcmFlags::from_bits(IS_PACKED | IS_SIGNED_INTEGER);
    assert!(!SampleFormat::F32.does_match_flags(int_flags));
    assert!(SampleFormat::I32.does_match_flags(int_flags));
    assert!(SampleFormat::I16.does_match_flags(int_flags));
    assert!(SampleFormat::I8.does_match_flags(int_flags));
}

#[test]
fn does_match_flags_both_bits_matches_nothing() {
    let both = LinearPcmFlags::from_bits(IS_FLOAT | IS_SIGNED_INTEGER);
    assert!(!SampleFormat::F32.does_match_flags(both));
    assert!(!SampleFormat::I16.does_match_flags(both));
}

#[test]
fn from_flags_and_bytes_per_frame_float_wins() {
    let float_flags = LinearPcmFlags::from_bits(IS_FLOAT);
    assert_eq!(
        SampleFormat::from_flags_and_bytes_per_frame(float_flags, 4),
        Some(SampleFormat::F32)
    );
    assert_eq!(
        SampleFormat::from_flags_and_bytes_per_frame(float_flags, 3),
        Some(SampleFormat::F32)
    );
}

#[test]
fn from_flags_and_bytes_per_frame_integer_widths() {
    let int_flags = LinearPcmFlags::from_bits(IS_SIGNED_INTEGER);
    assert_eq!(
        SampleFormat::from_flags_and_bytes_per_frame(int_flags, 1),
        Some(SampleFormat::I8)
    );
    assert_eq!(
        SampleFormat::from_flags_and_bytes_per_frame(int_flags, 2),
        Some(SampleFormat::I16)
    );
    assert_eq!(
        SampleFormat::from_flags_and_bytes_per_frame(int_flags, 4),
        Some(SampleFormat::I32)
    );
    assert_eq!(SampleFormat::from_flags_and_bytes_per_frame(int_flags, 3), None);
    assert_eq!(SampleFormat::from_flags_and_bytes_per_frame(int_flags, 8), None);
}

#[test]
fn from_flags_and_bits_per_channel_float_wins() {
    let float_flags = LinearPcmFlags::from_bits(IS_FLOAT);
    assert_eq!(
        SampleFormat::from_flags_and_bits_per_channel(float_flags, 32),
        Some(SampleFormat::F32)
    );
    assert_eq!(
        SampleFormat::from_flags_and_bits_per_channel(float_flags, 64),
        Some(SampleFormat::F32)
    );
}

#[test]
fn from_flags_and_bits_per_channel_integer_widths() {
    let int_flags = LinearPcmFlags::from_bits(IS_SIGNED_INTEGER);
    assert_eq!(
        SampleFormat::from_flags_and_bits_per_channel(int_flags, 8),
        Some(SampleFormat::I8)
    );
    assert_eq!(
        SampleFormat::from_flags_and_bits_per_channel(int_flags, 16),
        Some(SampleFormat::I16)
    );
    assert_eq!(
        SampleFormat::from_flags_and_bits_per_channel(int_flags, 32),
        Some(SampleFormat::I32)
    );
    assert_eq!(SampleFormat::from_flags_and_bits_per_channel(int_flags, 12), None);
}

#[test]
fn from_flags_and_bits_per_channel_unsigned_unsupported() {
    let neither = LinearPcmFlags::from_bits(IS_PACKED);
    assert_eq!(SampleFormat::from_flags_and_bits_per_channel(neither, 16), None);
}

#[test]
fn size_in_bytes_per_format() {
    assert_eq!(SampleFormat::F32.size_in_bytes(), 4);
    assert_eq!(SampleFormat::I32.size_in_bytes(), 4);
    assert_eq!(SampleFormat::I16.size_in_bytes(), 2);
    assert_eq!(SampleFormat::I8.size_in_bytes(), 1);
}

#[test]
fn sample_trait_formats() {
    assert_eq!(<i32 as Sample>::sample_format(), SampleFormat::I32);
    assert_eq!(<i16 as Sample>::sample_format(), SampleFormat::I16);
    assert_eq!(<i8 as Sample>::sample_format(), SampleFormat::I8);
}

#[test]
fn compute_flags_bits() {
    assert_eq!(compute_flags(SampleFormat::F32, true).bits, IS_PACKED | IS_FLOAT);
    assert_eq!(
        compute_flags(SampleFormat::I16, true).bits,
        IS_PACKED | IS_SIGNED_INTEGER
    );
    assert_eq!(
        compute_flags(SampleFormat::F32, false).bits,
        IS_PACKED | IS_FLOAT | IS_NON_INTERLEAVED
    );
    assert_eq!(
        compute_flags(SampleFormat::I8, false).bits,
        IS_PACKED | IS_SIGNED_INTEGER | IS_NON_INTERLEAVED
    );
}

#[test]
fn compute_flags_matches_own_format() {
    for &format in &[
        SampleFormat::F32,
        SampleFormat::I32,
        SampleFormat::I16,
        SampleFormat::I8,
    ] {
        for &interleaved in &[true, false] {
            let flags = compute_flags(format, interleaved);
            assert!(format.does_match_flags(flags));
            assert_eq!(flags.contains(IS_NON_INTERLEAVED), !interleaved);
            assert!(flags.contains(IS_PACKED));
        }
    }
}

#[test]
fn flags_contains_and_union() {
    let empty = LinearPcmFlags::empty();
    assert_eq!(empty.bits, 0);
    assert!(!empty.contains(IS_FLOAT));
    let flags = empty.union(IS_FLOAT).union(IS_PACKED);
    assert!(flags.contains(IS_FLOAT));
    assert!(flags.contains(IS_PACKED));
    assert!(flags.contains(IS_FLOAT | IS_PACKED));
    assert!(!flags.contains(IS_SIGNED_INTEGER));
}
