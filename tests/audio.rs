use uninutsh::audio::{audio_frame, interleave};
use uninutsh::composer::{AUDIO_SAMPLES_LENGTH, SAMPLE_RATE, SECONDS_PER_FRAME};

#[test]
fn interleave_pads_with_silence() {
    let wave = vec![[0.5f32, -0.5], [0.25, 0.75]];
    let r = interleave(&wave, 3, 0.0);
    assert_eq!(r, vec![0.5, -0.5, 0.25, 0.75, 0.0, 0.0]);
}

#[test]
fn interleave_drops_what_runs_past_the_frame() {
    let wave = vec![[1.0f64, 2.0], [3.0, 4.0], [5.0, 6.0]];
    assert_eq!(interleave(&wave, 2, 0.0), vec![1.0, 2.0, 3.0, 4.0]);
}

#[test]
fn audio_frame_covers_the_whole_frame_in_stereo() {
    let wave = vec![[0.1f32, 0.2]];
    let r = audio_frame(&wave, 0.0);
    assert_eq!(r.len(), 2 * SAMPLE_RATE as usize * SECONDS_PER_FRAME);
    assert_eq!(r.len(), 2 * AUDIO_SAMPLES_LENGTH);
    assert_eq!(r[0], 0.1);
    assert_eq!(r[1], 0.2);
    assert!(r[2..].iter().all(|s| *s == 0.0));
}
