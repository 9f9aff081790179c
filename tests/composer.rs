use uninutsh::automaton::Nutshell;
use uninutsh::composer::{
    Composer, NOTES_PER_WRITER, TICKS_PER_FRAME, TICKS_PER_SECOND, SECONDS_PER_FRAME,
    VIDEO_SAMPLES_LENGTH, WRITERS,
};
use uninutsh::geometry::Vector2;

fn composer(w: u32, h: u32) -> Composer {
    Composer::new(Nutshell::new(Vector2::new(w, h), 4, 12))
}

#[test]
fn frame_has_one_snapshot_per_step() {
    let mut c = composer(16, 16);
    let frame = c.process();
    assert_eq!(frame.video.samples.len(), VIDEO_SAMPLES_LENGTH);
    assert_eq!(VIDEO_SAMPLES_LENGTH, 32);
    for s in &frame.video.samples {
        assert_eq!(s.cells.len(), 256);
    }
}

#[test]
fn onsets_stay_inside_the_frame() {
    let mut c = composer(16, 16);
    for _ in 0..2 {
        let frame = c.process();
        assert_eq!(frame.notes.len(), VIDEO_SAMPLES_LENGTH * (WRITERS as usize) * (NOTES_PER_WRITER as usize));
        for n in &frame.notes {
            assert!(n.time < TICKS_PER_FRAME);
            assert!(n.duration >= 1 && n.duration <= 3);
        }
    }
    assert_eq!(TICKS_PER_FRAME, TICKS_PER_SECOND * SECONDS_PER_FRAME as u64);
}

#[test]
fn frames_replay_identically() {
    let mut a = composer(12, 12);
    let mut b = composer(12, 12);
    let fa = a.process();
    let fb = b.process();
    assert_eq!(fa.notes, fb.notes);
    assert_eq!(a.pointer, b.pointer);
    assert_eq!(a.nutshell.cells, b.nutshell.cells);
}

#[test]
fn snapshots_follow_the_automaton() {
    let mut c = composer(12, 12);
    let frame = c.process();
    // Before any step the top layer is blank; after one it votes 1 everywhere.
    assert!(frame.video.samples[0].cells.iter().all(|k| k.color == 0));
    assert!(frame.video.samples[1].cells.iter().all(|k| k.color == 1 && k.brightness == 1));
}

#[test]
fn walk_moves_right_on_a_multiple_of_three() {
    let mut c = composer(12, 12);
    assert_eq!(c.color(), 0);
    assert_eq!(c.pointer, Vector2::new(1, 0));
    c.nutshell.step();
    // The top layer now holds 1 on every channel: the mean is 1, so down.
    assert_eq!(c.color(), 1);
    assert_eq!(c.pointer, Vector2::new(1, 1));
}

#[test]
fn first_voices_sound_octaves_below() {
    let mut c = composer(8, 8);
    let frame = c.process();
    // The key read on a blank top layer is degree 0; voice 0 is six octaves down.
    let first = frame.notes[0];
    assert!(first.index >= -72 && first.index <= -72 + 11);
    assert_eq!(first.decay, 1);
    let last = frame.notes[13];
    assert!(last.index >= 0 && last.index <= 11);
    assert_eq!(last.decay, 7);
}
