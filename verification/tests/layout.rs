use audio_loopback::layout::{deinterleave, interleave};

#[test]
fn deinterleave_two_channels() {
    let data = vec![1.0f32, 2.0, 3.0, 4.0, 5.0, 6.0];
    let planar = deinterleave(&data, 2);
    assert_eq!(planar.len(), 2);
    assert_eq!(planar[0], vec![1.0, 3.0, 5.0]);
    assert_eq!(planar[1], vec![2.0, 4.0, 6.0]);
}

#[test]
fn deinterleave_single_channel_is_identity() {
    let data = vec![0.1f32, 0.2, 0.3];
    let planar = deinterleave(&data, 1);
    assert_eq!(planar.len(), 1);
    assert_eq!(planar[0], data);
}

#[test]
fn deinterleave_empty_block() {
    let data: Vec<f32> = Vec::new();
    let planar = deinterleave(&data, 2);
    assert_eq!(planar.len(), 2);
    assert!(planar[0].is_empty());
    assert!(planar[1].is_empty());
}

#[test]
fn interleave_two_channels() {
    let planar = vec![vec![1.0f32, 3.0, 5.0], vec![2.0f32, 4.0, 6.0]];
    let data = interleave(&planar, 3);
    assert_eq!(data, vec![1.0, 2.0, 3.0, 4.0, 5.0, 6.0]);
}

#[test]
fn interleave_zero_frames() {
    let planar: Vec<Vec<f32>> = vec![Vec::new(), Vec::new()];
    let data = interleave(&planar, 0);
    assert!(data.is_empty());
}

#[test]
fn interleave_undoes_deinterleave() {
    let data: Vec<f32> = (0..24).map(|i| i as f32 / 10.0).collect();
    for &channels in &[1usize, 2, 3, 4] {
        let planar = deinterleave(&data, channels);
        let frames = data.len() / channels;
        assert_eq!(interleave(&planar, frames), data);
    }
}
