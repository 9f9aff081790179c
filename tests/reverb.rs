use uninutsh::reverb::{Reverb, UNIT, LEVEL_LIMIT};

#[test]
fn unit_echo_returns_the_impulse_one_length_later() {
    let mut r = Reverb::new(4, 1, UNIT, UNIT);
    let mut input = vec![0i64; 12];
    input[0] = UNIT;
    let out = r.process_block(&input);
    assert_eq!(out[0], UNIT);
    assert_eq!(&out[1..4], &[0, 0, 0]);
    assert_eq!(out[4], UNIT);
    assert_eq!(out[8], UNIT);
}

#[test]
fn silence_in_gives_silence_out() {
    let mut r = Reverb::new(16, 3, UNIT / 4, UNIT / 2);
    let out = r.process_block(&vec![0i64; 40]);
    assert!(out.iter().all(|s| *s == 0));
    for tap in &r.taps {
        assert!(tap.front.iter().all(|s| *s == 0));
        assert!(tap.back.iter().all(|s| *s == 0));
    }
}

#[test]
fn taps_halve_in_length_and_amplitude() {
    let r = Reverb::new(48000 * 4, 6, UNIT / 4, UNIT / 2);
    let lengths: Vec<usize> = r.taps.iter().map(|t| t.front.len()).collect();
    assert_eq!(lengths, vec![192000, 96000, 48000, 24000, 12000, 6000]);
    let amps: Vec<i64> = r.taps.iter().map(|t| t.amplitude).collect();
    assert_eq!(amps, vec![16384, 8192, 4096, 2048, 1024, 512]);
    assert_eq!(r.wet, UNIT / 2);
}

#[test]
fn echo_is_scaled_by_amplitude_and_wet_mix() {
    let mut r = Reverb::new(3, 1, UNIT / 4, UNIT / 2);
    let out = r.process_block(&vec![UNIT, 0, 0, 0, UNIT / 2]);
    assert_eq!(out[0], UNIT);
    assert_eq!(out[3], UNIT / 8);
    // echo 0 this time; the dry sample passes at full scale.
    assert_eq!(out[4], UNIT / 2);
}

#[test]
fn dry_sample_is_scaled_by_what_the_echo_leaves() {
    let mut r = Reverb::new(1, 1, UNIT, UNIT);
    let a = r.process_sample(UNIT / 2);
    assert_eq!(a, UNIT / 2);
    // echo UNIT/2: w = UNIT/2, dry = UNIT/2 * (UNIT - UNIT/2) / UNIT.
    let b = r.process_sample(UNIT / 2);
    assert_eq!(b, UNIT / 2 + UNIT / 4);
}

#[test]
fn negative_samples_round_toward_zero() {
    let mut r = Reverb::new(1, 1, 3, UNIT);
    let a = r.process_sample(-UNIT);
    assert_eq!(a, -UNIT);
    // -UNIT * 3 / UNIT = -3 is stored, and comes back next sample.
    let b = r.process_sample(0);
    assert_eq!(b, -3);
}

#[test]
fn output_saturates() {
    let mut r = Reverb::new(2, 2, UNIT, UNIT);
    let mut last = 0;
    for _ in 0..40 {
        last = r.process_sample(-UNIT);
        assert!(last.abs() <= LEVEL_LIMIT);
    }
    assert_eq!(last.abs(), LEVEL_LIMIT);
}
