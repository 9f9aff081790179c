//! Notes and the writer that places them on a scale.
//!
//! Times and durations count ticks, a tick being the score's base duration.
//! Amplitudes count `FULL_SCALE`ths of full scale, so that the fractions 1/1
//! to 1/8 are exact. A decay is the rate, per tick, at which a note fades.
use vstd::prelude::*;
use vstd::arithmetic::div_mod::lemma_fundamental_div_mod_converse;

verus! {

/// Full scale, in the units of an amplitude.
pub const FULL_SCALE: u64 = 840;

/// The largest pitch, in semitones from the reference pitch either way, that
/// the pitch arithmetic handles.
pub const NOTE_LIMIT: i64 = 0x100_0000_0000;

/// A note placed in time.
#[derive(Copy, Clone, Debug, PartialEq, Eq, Structural)]
pub struct TimedNote {
    pub index: i64,
    pub time: u64,
    pub duration: u64,
    pub amplitude: u64,
    pub decay: u64,
}

impl TimedNote {
    pub fn new(index: i64, time: u64, duration: u64, amplitude: u64, decay: u64) -> (r: TimedNote)
        ensures
            r == (TimedNote { index, time, duration, amplitude, decay }),
    {
        TimedNote { index, time, duration, amplitude, decay }
    }
}

/// Semitones above the root of the major scale, for degrees 0 to 6.
pub open spec fn scale_step(degree: int) -> int {
    if degree == 0 {
        0
    } else if degree == 1 {
        2
    } else if degree == 2 {
        4
    } else if degree == 3 {
        5
    } else if degree == 4 {
        7
    } else if degree == 5 {
        9
    } else {
        11
    }
}

/// Semitones above the root of a minor triad, for its notes 0 to 2.
pub open spec fn minor_step(degree: int) -> int {
    if degree == 0 {
        0
    } else if degree == 1 {
        3
    } else {
        7
    }
}

/// Semitones above the root of a major chord in second inversion, for its
/// notes 0 to 2.
pub open spec fn major_step(degree: int) -> int {
    if degree == 0 {
        0
    } else if degree == 1 {
        5
    } else {
        9
    }
}

/// Degree `note` of a ladder of `per_octave` degrees, each octave twelve
/// semitones up, whose degree within the octave is `step`.
pub open spec fn ladder(base: int, note: int, per_octave: int, step: int) -> int {
    base + 12 * (note / per_octave) + step
}

pub open spec fn in_limit(n: int) -> bool {
    -NOTE_LIMIT <= n <= NOTE_LIMIT
}

/// Splits `note` into whole octaves of `n` degrees and the degree within.
fn split_degree(note: i64, n: i64) -> (r: (i64, i64))
    requires
        1 <= n <= 7,
        in_limit(note as int),
    ensures
        r.0 == (note as int) / (n as int),
        r.1 == (note as int) % (n as int),
        0 <= r.1 < n,
        in_limit(r.0 as int),
{
    let mut degree = note;
    let mut octave: i64 = 0;
    while degree < 0
        invariant
            1 <= n <= 7,
            in_limit(note as int),
            note == degree + n * octave,
            octave <= 0,
            -octave <= degree - note,
            degree == note || degree < n,
        decreases n - degree,
    {
        proof {
            assert(n * (octave - 1) == n * octave - n) by (nonlinear_arith);
        }
        degree = degree + n;
        octave = octave - 1;
    }
    while degree >= n
        invariant
            1 <= n <= 7,
            in_limit(note as int),
            note == degree + n * octave,
            0 <= degree,
            (0 <= octave <= note - degree) || (octave <= 0 && degree < n),
        decreases degree,
    {
        proof {
            assert(n * (octave + 1) == n * octave + n) by (nonlinear_arith);
        }
        degree = degree - n;
        octave = octave + 1;
    }
    proof {
        lemma_fundamental_div_mod_converse(note as int, n as int, octave as int, degree as int);
        assert(-NOTE_LIMIT <= octave) by (nonlinear_arith)
            requires
                1 <= n <= 7,
                -NOTE_LIMIT <= note,
                note == degree + n * octave,
                0 <= degree < n,
        ;
    }
    (octave, degree)
}

/// Writes notes at a moving time, relative to a base note.
pub struct NoteWriter {
    pub time: u64,
    pub base_note: i64,
    pub duration: u64,
    pub amplitude: u64,
    pub note: i64,
    pub decay: u64,
}

impl NoteWriter {
    /// A writer at `time` over `base_note`: one tick long, at full scale,
    /// with no decay.
    pub fn new(time: u64, base_note: i64) -> (r: NoteWriter)
        ensures
            r == (NoteWriter { time, base_note, duration: 1, amplitude: FULL_SCALE, note: 0, decay: 0 }),
    {
        NoteWriter { time, base_note, duration: 1, amplitude: FULL_SCALE, note: 0, decay: 0 }
    }

    /// Moves back by one duration.
    pub fn go_back(&mut self)
        requires
            old(self).time >= old(self).duration,
        ensures
            *final(self) == (NoteWriter { time: (old(self).time - old(self).duration) as u64, ..*old(self) }),
    {
        self.time = self.time - self.duration;
    }

    /// Moves the note `change` degrees along the major scale, counted from
    /// the current note.
    pub fn advance_note_scale(&mut self, change: i64)
        requires
            in_limit(old(self).note as int),
            in_limit(change as int),
        ensures
            *final(self) == (NoteWriter {
                note: (old(self).note + 12 * ((change as int) / 7) + scale_step((change as int) % 7)) as i64,
                ..*old(self)
            }),
    {
        let (octave, degree) = split_degree(change, 7);
        let index = self.note + 12 * octave;
        self.note = index + NoteWriter::scale_change(degree);
    }

    /// Moves forward by `factor` durations.
    pub fn advance_for(&mut self, factor: u64)
        requires
            old(self).time + old(self).duration * factor <= u64::MAX,
        ensures
            *final(self) == (NoteWriter { time: (old(self).time + old(self).duration * factor) as u64, ..*old(self) }),
    {
        proof {
            assert(0 <= self.duration * factor) by (nonlinear_arith);
        }
        self.time = self.time + self.duration * factor;
    }

    /// Moves forward by one duration.
    pub fn advance(&mut self)
        requires
            old(self).time + old(self).duration <= u64::MAX,
        ensures
            *final(self) == (NoteWriter { time: (old(self).time + old(self).duration) as u64, ..*old(self) }),
    {
        self.time = self.time + self.duration;
    }

    pub fn add_to_base_note(&mut self, change: i64)
        requires
            i64::MIN <= old(self).base_note + change <= i64::MAX,
        ensures
            *final(self) == (NoteWriter { base_note: (old(self).base_note + change) as i64, ..*old(self) }),
    {
        self.base_note = self.base_note + change;
    }

    pub fn set_base_note(&mut self, note: i64)
        ensures
            *final(self) == (NoteWriter { base_note: note, ..*old(self) }),
    {
        self.base_note = note;
    }

    pub fn set_time(&mut self, time: u64)
        ensures
            *final(self) == (NoteWriter { time, ..*old(self) }),
    {
        self.time = time;
    }

    pub fn set_amplitude(&mut self, amplitude: u64)
        ensures
            *final(self) == (NoteWriter { amplitude, ..*old(self) }),
    {
        self.amplitude = amplitude;
    }

    pub fn set_note(&mut self, note: i64)
        ensures
            *final(self) == (NoteWriter { note, ..*old(self) }),
    {
        self.note = note;
    }

    pub fn set_duration(&mut self, duration: u64)
        ensures
            *final(self) == (NoteWriter { duration, ..*old(self) }),
    {
        self.duration = duration;
    }

    /// Semitones from the root of the major scale to its degree `in_scale`.
    pub fn scale_change(in_scale: i64) -> (r: i64)
        requires
            0 <= in_scale < 7,
        ensures
            r == scale_step(in_scale as int),
    {
        match in_scale {
            0 => 0,
            1 => 2,
            2 => 2 + 2,
            3 => 2 + 2 + 1,
            4 => 2 + 2 + 1 + 2,
            5 => 2 + 2 + 1 + 2 + 2,
            _ => 2 + 2 + 1 + 2 + 2 + 2,
        }
    }

    /// The note, at this writer's time, that `note` names on the minor triad
    /// over the base note.
    pub fn note_in_minor(&self) -> (r: TimedNote)
        requires
            in_limit(self.note as int),
            in_limit(self.base_note as int),
        ensures
            r == (TimedNote {
                index: ladder(self.base_note as int, self.note as int, 3, minor_step((self.note as int) % 3)) as i64,
                time: self.time,
                duration: self.duration,
                amplitude: self.amplitude,
                decay: self.decay,
            }),
    {
        let (octave, degree) = split_degree(self.note, 3);
        let step: i64 = if degree == 0 {
            0
        } else if degree == 1 {
            3
        } else {
            3 + 4
        };
        let index = self.base_note + 12 * octave + step;
        TimedNote::new(index, self.time, self.duration, self.amplitude, self.decay)
    }

    /// The note, at this writer's time, that `note` names on the major chord
    /// over the base note.
    pub fn note_in_major(&self) -> (r: TimedNote)
        requires
            in_limit(self.note as int),
            in_limit(self.base_note as int),
        ensures
            r == (TimedNote {
                index: ladder(self.base_note as int, self.note as int, 3, major_step((self.note as int) % 3)) as i64,
                time: self.time,
                duration: self.duration,
                amplitude: self.amplitude,
                decay: self.decay,
            }),
    {
        let (octave, degree) = split_degree(self.note, 3);
        let step: i64 = if degree == 0 {
            0
        } else if degree == 1 {
            5
        } else {
            5 + 4
        };
        let index = self.base_note + 12 * octave + step;
        TimedNote::new(index, self.time, self.duration, self.amplitude, self.decay)
    }

    /// The note, at this writer's time, that `note` names on the major scale
    /// over the base note.
    pub fn note_in_scale(&self) -> (r: TimedNote)
        requires
            in_limit(self.note as int),
            in_limit(self.base_note as int),
        ensures
            r == (TimedNote {
                index: ladder(self.base_note as int, self.note as int, 7, scale_step((self.note as int) % 7)) as i64,
                time: self.time,
                duration: self.duration,
                amplitude: self.amplitude,
                decay: self.decay,
            }),
    {
        let (octave, degree) = split_degree(self.note, 7);
        let index = self.base_note + 12 * octave + NoteWriter::scale_change(degree);
        TimedNote::new(index, self.time, self.duration, self.amplitude, self.decay)
    }

    /// The note `note` semitones over the base note, at this writer's time.
    pub fn note(&self) -> (r: TimedNote)
        requires
            in_limit(self.note as int),
            in_limit(self.base_note as int),
        ensures
            r == (TimedNote {
                index: (self.base_note + self.note) as i64,
                time: self.time,
                duration: self.duration,
                amplitude: self.amplitude,
                decay: self.decay,
            }),
    {
        TimedNote::new(self.base_note + self.note, self.time, self.duration, self.amplitude, self.decay)
    }
}

} // verus!
