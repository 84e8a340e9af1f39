use stt::audio::{
    chunk_bounds, first_channel, needs_resampling, pad_with_silence, padding_fits, CHUNK_SIZE,
};

#[test]
fn silence_surrounds_a_recording() {
    let pcm = vec![0.5f32, -0.25];
    let padded = pad_with_silence(&pcm, 0.0, 3, 2);
    assert_eq!(padded.len(), 3 + 2 + 2 + 24_000);
    assert_eq!(padded[..7], [0.0, 0.0, 0.0, 0.5, -0.25, 0.0, 0.0]);
    assert!(padded[5..].iter().all(|s| *s == 0.0));
}

#[test]
fn an_empty_recording_gets_silence_too() {
    assert_eq!(pad_with_silence(&vec![], 0u8, 0, 0), vec![0u8; 24_000]);
}

#[test]
fn padding_that_is_too_long_is_told() {
    assert!(padding_fits(0, 0, 0));
    assert!(padding_fits(usize::MAX - 24_000, 0, 0));
    assert!(!padding_fits(usize::MAX - 24_000, 1, 0));
    assert!(!padding_fits(usize::MAX - 24_000, 0, 1));
    assert!(!padding_fits(usize::MAX, usize::MAX, usize::MAX));
}

#[test]
fn the_first_channel_is_taken() {
    assert_eq!(first_channel(&[1, 2, 3, 4, 5, 6], 2), vec![1, 3, 5]);
    assert_eq!(first_channel(&[1, 2, 3, 4, 5, 6], 3), vec![1, 4]);
    // A frame that is cut short still has its first sample.
    assert_eq!(first_channel(&[1, 2, 3, 4, 5], 2), vec![1, 3, 5]);
    assert_eq!(first_channel(&[1, 2, 3], 8), vec![1]);
    assert_eq!(first_channel(&[1, 2, 3], usize::MAX), vec![1]);
    assert!(first_channel::<i16>(&[], 2).is_empty());
}

#[test]
fn a_single_channel_is_kept() {
    let data = vec![0.5f32, 1.5, -2.0];
    assert_eq!(first_channel(&data, 1), data);
}

#[test]
fn channels_are_told_apart_as_by_slices() {
    let data: Vec<u32> = (0..100).collect();
    for channels in 1..12 {
        let expected: Vec<u32> = data.chunks(channels).map(|frame| frame[0]).collect();
        assert_eq!(first_channel(&data, channels), expected);
    }
}

#[test]
fn chunks_make_up_a_recording() {
    for len in [0, 1, 1919, 1920, 1921, 3840, 5000] {
        let pcm: Vec<usize> = (0..len).collect();
        let chunks: Vec<&[usize]> =
            chunk_bounds(len).into_iter().map(|(start, end)| &pcm[start..end]).collect();
        let expected: Vec<&[usize]> = pcm.chunks(CHUNK_SIZE).collect();
        assert_eq!(chunks, expected);
        assert_eq!(chunks.concat(), pcm);
    }
    assert_eq!(chunk_bounds(2000), vec![(0, 1920), (1920, 2000)]);
    assert!(chunk_bounds(0).is_empty());
}

#[test]
fn only_other_rates_are_resampled() {
    assert!(!needs_resampling(24_000));
    assert!(needs_resampling(48_000));
    assert!(needs_resampling(0));
}
