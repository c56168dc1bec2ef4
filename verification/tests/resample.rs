use audire::audio::{downsample_to_16k_mono, frame_16k_100ms, mix_sources, to_mono_i16, FrameAccumulator};
use audire::error::ParaError;

#[test]
fn test_to_mono_stereo() {
    let stereo = vec![100i16, 200, 300, 400, 500, 600];
    let mono = to_mono_i16(&stereo, 2);
    assert_eq!(mono, vec![150, 350, 550]);
}

#[test]
fn test_to_mono_passthrough() {
    let mono = vec![100i16, 200, 300];
    assert_eq!(to_mono_i16(&mono, 1), mono);
}

#[test]
fn test_mix_sources_both() {
    let a = vec![1000i16, 2000, 3000];
    let b = vec![500i16, 1000, 1500];
    let mixed = mix_sources(&a, &b);
    assert_eq!(mixed, vec![750, 1500, 2250]);
}

#[test]
fn test_mix_sources_one_empty() {
    let a = vec![1000i16, 2000];
    assert_eq!(mix_sources(&a, &[]), a);
    assert_eq!(mix_sources(&[], &a), a);
}

#[test]
fn test_downsample_48k() {
    let input: Vec<i16> = (0..4800).map(|i| (i % 1000) as i16).collect();
    let output = downsample_to_16k_mono(&input, 48_000).unwrap();
    assert_eq!(output.len(), 1600);
    assert_eq!(output[0], 0);
    assert_eq!(output[1], 3);
}

#[test]
fn test_downsample_16k_passthrough() {
    let input = vec![1i16, 2, 3, 4, 5];
    let output = downsample_to_16k_mono(&input, 16_000).unwrap();
    assert_eq!(output, input);
}

#[test]
fn test_frame_100ms() {
    let samples: Vec<i16> = vec![42; 3200];
    let frames = frame_16k_100ms(&samples);
    assert_eq!(frames.len(), 2);
    assert_eq!(frames[0].len(), 3200);
}

#[test]
fn to_mono_truncates_toward_zero() {
    // (-3 + 0) / 2 rounds toward zero in integer division.
    assert_eq!(to_mono_i16(&[-3i16, 0, 7, 8], 2), vec![-1, 7]);
}

#[test]
fn mix_of_unequal_lengths_halves_the_longer_tail() {
    assert_eq!(mix_sources(&[100i16, 200, 300], &[300i16]), vec![200, 100, 150]);
}

#[test]
fn downsample_44k_picks_nearest_source_samples() {
    let input: Vec<i16> = (0..441).map(|i| i as i16).collect();
    let out = downsample_to_16k_mono(&input, 44_100).unwrap();
    assert_eq!(out.len(), 160);
    assert_eq!(out[0], 0);
    assert_eq!(out[1], 2);
    assert_eq!(out[159], 438);
}

#[test]
fn downsample_rejects_other_rates() {
    match downsample_to_16k_mono(&[1i16, 2, 3], 22_050) {
        Err(ParaError::Audio(m)) => assert_eq!(m, "unsupported input sample_rate=22050 for downsampler; expected 48000, 44100, or 16000."),
        _ => panic!("expected an audio error"),
    }
}

#[test]
fn frames_are_little_endian_and_drop_a_partial_tail() {
    let mut samples = vec![0i16; 1601];
    samples[0] = 0x0102;
    let frames = frame_16k_100ms(&samples);
    assert_eq!(frames.len(), 1);
    assert_eq!(frames[0][0], 0x02);
    assert_eq!(frames[0][1], 0x01);
}

#[test]
fn accumulator_carries_the_remainder_between_pushes() {
    let mut acc = FrameAccumulator::new();
    let first = acc.push(&vec![1i16; 1000]);
    assert_eq!(first.len(), 0);
    assert_eq!(acc.pending_len(), 1000);
    let second = acc.push(&vec![2i16; 2300]);
    assert_eq!(second.len(), 2);
    assert_eq!(acc.pending_len(), 100);
    assert_eq!(second[0][0], 1);
    assert_eq!(second[0][2 * 1000], 2);
}
