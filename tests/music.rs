use uninutsh::music::{NoteWriter, TimedNote, FULL_SCALE};

#[test]
fn scale_change_walks_the_major_scale() {
    let steps: Vec<i64> = (0..7).map(NoteWriter::scale_change).collect();
    assert_eq!(steps, vec![0, 2, 4, 5, 7, 9, 11]);
}

#[test]
fn note_in_scale_counts_octaves_both_ways() {
    let mut w = NoteWriter::new(3, -24);
    w.set_note(9);
    assert_eq!(w.note_in_scale().index, -24 + 12 + 4);
    w.set_note(-1);
    assert_eq!(w.note_in_scale().index, -24 - 12 + 11);
    w.set_note(-7);
    assert_eq!(w.note_in_scale().index, -36);
}

#[test]
fn note_in_minor_and_major_use_their_chords() {
    let mut w = NoteWriter::new(0, 0);
    w.set_note(1);
    assert_eq!(w.note_in_minor().index, 3);
    assert_eq!(w.note_in_major().index, 5);
    w.set_note(2);
    assert_eq!(w.note_in_minor().index, 7);
    assert_eq!(w.note_in_major().index, 9);
    w.set_note(4);
    assert_eq!(w.note_in_minor().index, 12 + 3);
    w.set_note(-1);
    assert_eq!(w.note_in_minor().index, -12 + 7);
    assert_eq!(w.note_in_major().index, -12 + 9);
}

#[test]
fn notes_carry_the_writer_settings() {
    let mut w = NoteWriter::new(5, 2);
    w.set_duration(3);
    w.set_amplitude(FULL_SCALE / 4);
    w.decay = 2;
    w.set_note(4);
    assert_eq!(w.note(), TimedNote::new(6, 5, 3, 210, 2));
    w.set_time(10);
    w.set_base_note(-5);
    w.add_to_base_note(1);
    assert_eq!(w.note(), TimedNote::new(0, 10, 3, 210, 2));
}

#[test]
fn writer_moves_in_time() {
    let mut w = NoteWriter::new(0, 0);
    w.set_duration(2);
    w.advance();
    assert_eq!(w.time, 2);
    w.advance_for(3);
    assert_eq!(w.time, 8);
    w.go_back();
    assert_eq!(w.time, 6);
}

#[test]
fn advance_note_scale_moves_by_degrees() {
    let mut w = NoteWriter::new(0, 0);
    w.advance_note_scale(2);
    assert_eq!(w.note, 4);
    w.advance_note_scale(8);
    assert_eq!(w.note, 4 + 12 + 2);
    w.advance_note_scale(-1);
    assert_eq!(w.note, 4 + 12 + 2 - 12 + 11);
}
