//! Frame production: a walk over the automaton's top layer picks the notes of
//! a fixed-length score, while the automaton steps once per video sample.
use vstd::prelude::*;
use crate::automaton::{cell_in_range, copy_layer, step_layers, Cell, Nutshell};
use crate::geometry::{lemma_step_forward, Vector2};

use crate::music::{in_limit, minor_step, scale_step, NoteWriter, TimedNote, FULL_SCALE};

verus! {

/// Video samples per second of a frame.
pub const VIDEO_SAMPLES_PER_SECOND: usize = 2;

/// Seconds covered by a frame.
pub const SECONDS_PER_FRAME: usize = 16;

/// Video samples, and automaton steps, per frame.
pub const VIDEO_SAMPLES_LENGTH: usize = VIDEO_SAMPLES_PER_SECOND * SECONDS_PER_FRAME;

/// Audio sample rate, in samples per second and channel.
pub const SAMPLE_RATE: u32 = 48000;

/// Stereo sample pairs per frame.
pub const AUDIO_SAMPLES_LENGTH: usize = 48000 * SECONDS_PER_FRAME;

/// Ticks per second; a tick is the score's base duration.
pub const TICKS_PER_SECOND: u64 = 6;

/// Ticks per frame: every onset is below this.
pub const TICKS_PER_FRAME: u64 = 96;

/// The modulus that paces the onset walk.
pub const PACE: u64 = 12;

/// Reads summed into each onset.
pub const TIME_READS: u64 = (TICKS_PER_FRAME / PACE + 1) * 2;

/// Voices, one octave apart, that sound together.
pub const WRITERS: i64 = 7;

/// Notes that each voice writes per video sample.
pub const NOTES_PER_WRITER: u64 = 2;

/// A frame's ticks span exactly its seconds, so an onset below
/// `TICKS_PER_FRAME` falls inside the frame.
pub proof fn lemma_frame_ticks()
    ensures
        TICKS_PER_FRAME == TICKS_PER_SECOND * (SECONDS_PER_FRAME as u64),
        AUDIO_SAMPLES_LENGTH == (SAMPLE_RATE as usize) * SECONDS_PER_FRAME,
{
}

/// The top layer.
pub open spec fn top(s: Seq<Seq<Cell>>) -> Seq<Cell> {
    s[s.len() - 1]
}

/// The value under `p`: the mean of the three channels, rounded down.
pub open spec fn read_value(top: Seq<Cell>, w: int, p: Vector2<u32>) -> u64 {
    let c = top[p.y * w + p.x];
    ((c.color + c.saturation + c.brightness) / 3) as u64
}

/// Where the walk goes after reading `v` at `p`: right, down, or both, by
/// `v` modulo 3.
pub open spec fn moved(w: int, h: int, p: Vector2<u32>, v: u64) -> Vector2<u32> {
    if v % 3 == 0 {
        Vector2 { x: ((p.x + 1) % w) as u32, y: p.y }
    } else if v % 3 == 1 {
        Vector2 { x: p.x, y: ((p.y + 1) % h) as u32 }
    } else {
        Vector2 { x: ((p.x + 1) % w) as u32, y: ((p.y + 1) % h) as u32 }
    }
}

/// The onset summed from `n` reads from `p`, modulo the frame, and where
/// the walk ends.
pub open spec fn time_walk(top: Seq<Cell>, w: int, h: int, p: Vector2<u32>, n: nat) -> (u64, Vector2<u32>)
    decreases n,
{
    if n == 0 {
        (0, p)
    } else {
        let (t, q) = time_walk(top, w, h, p, (n - 1) as nat);
        let v = read_value(top, w, q);
        (((t + v) % (TICKS_PER_FRAME as int)) as u64, moved(w, h, q, v))
    }
}

/// One note of the voice `voice` over `base`, read from `p`: its duration,
/// its amplitude, its onset, whether it is a scale degree or a minor chord
/// note, and which; and where the walk ends.
pub open spec fn composed_note(top: Seq<Cell>, w: int, h: int, p: Vector2<u32>, voice: int, base: int) -> (
    TimedNote,
    Vector2<u32>,
) {
    let v1 = read_value(top, w, p);
    let q1 = moved(w, h, p, v1);
    let v2 = read_value(top, w, q1);
    let q2 = moved(w, h, q1, v2);
    let (t, q3) = time_walk(top, w, h, q2, TIME_READS as nat);
    let v4 = read_value(top, w, q3);
    let q4 = moved(w, h, q3, v4);
    let v5 = read_value(top, w, q4);
    let q5 = moved(w, h, q4, v5);
    let index = if v4 % 8 == 0 {
        base + scale_step((v5 % 7) as int)
    } else {
        base + minor_step((v5 % 3) as int)
    };
    (
        TimedNote {
            index: index as i64,
            time: t,
            duration: (v1 % 3 + 1) as u64,
            amplitude: (FULL_SCALE as int / (v2 % 4 + 1) as int) as u64,
            decay: (voice + 1) as u64,
        },
        q5,
    )
}

/// The first `n` notes of a voice, and where the walk ends.
pub open spec fn voice_notes(top: Seq<Cell>, w: int, h: int, p: Vector2<u32>, voice: int, base: int, n: nat) -> (
    Seq<TimedNote>,
    Vector2<u32>,
)
    decreases n,
{
    if n == 0 {
        (Seq::empty(), p)
    } else {
        let (ns, q) = voice_notes(top, w, h, p, voice, base, (n - 1) as nat);
        let (note, q2) = composed_note(top, w, h, q, voice, base);
        (ns.push(note), q2)
    }
}

/// The notes of the first `voices` voices, each an octave above the one
/// before, and where the walk ends.
pub open spec fn chord_notes(top: Seq<Cell>, w: int, h: int, p: Vector2<u32>, adder: int, voices: nat) -> (
    Seq<TimedNote>,
    Vector2<u32>,
)
    decreases voices,
{
    if voices == 0 {
        (Seq::empty(), p)
    } else {
        let v = voices - 1;
        let (ns, q) = chord_notes(top, w, h, p, adder, v as nat);
        let (vs, q2) = voice_notes(top, w, h, q, v, (v - 6) * 12 + adder, NOTES_PER_WRITER as nat);
        (ns + vs, q2)
    }
}

/// After `i` video samples: the notes, the top layers shown, where the walk
/// is, and the layers.
pub open spec fn frame_walk(
    s: Seq<Seq<Cell>>,
    w: int,
    h: int,
    definition: int,
    p: Vector2<u32>,
    adder: int,
    i: nat,
) -> (Seq<TimedNote>, Seq<Seq<Cell>>, Vector2<u32>, Seq<Seq<Cell>>)
    decreases i,
{
    if i == 0 {
        (Seq::empty(), Seq::empty(), p, s)
    } else {
        let (ns, vs, q, t) = frame_walk(s, w, h, definition, p, adder, (i - 1) as nat);
        let (cn, q2) = chord_notes(top(t), w, h, q, adder, WRITERS as nat);
        (ns + cn, vs.push(top(t)), q2, step_layers(t, w, h, definition))
    }
}

/// One snapshot of the top layer.
pub struct VideoSample {
    pub cells: Vec<Cell>,
}

/// The snapshots of one frame, one per automaton step.
pub struct VideoFrame {
    pub samples: Vec<VideoSample>,
}

impl VideoFrame {
    pub open spec fn view(&self) -> Seq<Seq<Cell>> {
        Seq::new(self.samples@.len(), |i: int| self.samples@[i].cells@)
    }
}

/// What the producer hands on: a frame's score and its snapshots.
pub struct Frame {
    pub notes: Vec<TimedNote>,
    pub video: VideoFrame,
}

/// Builds frames from an automaton and a walk over its top layer.
pub struct Composer {
    pub nutshell: Nutshell,
    pub pointer: Vector2<u32>,
}

impl Composer {
    pub open spec fn wf(&self) -> bool {
        &&& self.nutshell.wf()
        &&& self.nutshell.layers >= 4
        &&& self.pointer.x < self.nutshell.size.x
        &&& self.pointer.y < self.nutshell.size.y
    }

    pub open spec fn w(&self) -> int {
        self.nutshell.width()
    }

    pub open spec fn h(&self) -> int {
        self.nutshell.height()
    }

    pub open spec fn top(&self) -> Seq<Cell> {
        top(self.nutshell@)
    }

    /// A composer whose walk starts at the top-left corner.
    pub fn new(nutshell: Nutshell) -> (r: Composer)
        requires
            nutshell.wf(),
            nutshell.layers >= 4,
        ensures
            r.wf(),
            r.nutshell == nutshell,
            r.pointer == (Vector2::<u32> { x: 0, y: 0 }),
    {
        Composer { nutshell, pointer: Vector2::new(0, 0) }
    }

    /// Reads the value under the walk and moves the walk on.
    pub fn color(&mut self) -> (r: u64)
        requires
            old(self).wf(),
        ensures
            final(self).wf(),
            final(self).nutshell == old(self).nutshell,
            r == read_value(old(self).top(), old(self).w(), old(self).pointer),
            final(self).pointer == moved(old(self).w(), old(self).h(), old(self).pointer, r),
            r < old(self).nutshell.definition,
    {
        let ghost w = self.w();
        let ghost h = self.h();
        let top_layer = self.nutshell.layers - 1;
        let index = self.nutshell.index_at(self.pointer.x, self.pointer.y);
        proof {
            assert(self.nutshell.cells@[top_layer as int]@.len() == w * h);
            assert(cell_in_range(self.nutshell@[top_layer as int][index as int], self.nutshell.definition as int));
        }
        let cell = self.nutshell.cells[top_layer][index];
        let color = (cell.color + cell.saturation + cell.brightness) / 3;
        proof {
            lemma_step_forward(self.pointer.x as int, w);
            lemma_step_forward(self.pointer.y as int, h);
        }
        if color % 3 == 0 {
            self.pointer = self.nutshell.rigth_pos(self.pointer.x, self.pointer.y);
        } else if color % 3 == 1 {
            self.pointer = self.nutshell.down_pos(self.pointer.x, self.pointer.y);
        } else {
            self.pointer = self.nutshell.rigth_pos(self.pointer.x, self.pointer.y);
            self.pointer = self.nutshell.down_pos(self.pointer.x, self.pointer.y);
        }
        color
    }

    /// The onset of the next note, in ticks, summed from the walk.
    pub fn note_time(&mut self) -> (r: u64)
        requires
            old(self).wf(),
        ensures
            final(self).wf(),
            final(self).nutshell == old(self).nutshell,
            (r, final(self).pointer) == time_walk(old(self).top(), old(self).w(), old(self).h(), old(self).pointer, TIME_READS as nat),
            r < TICKS_PER_FRAME,
    {
        let ghost start = self.pointer;
        let ghost nutshell = self.nutshell;
        let mut time: u64 = 0;
        let mut j: u64 = 0;
        while j < TIME_READS
            invariant
                self.wf(),
                self.nutshell == nutshell,
                j <= TIME_READS,
                time < TICKS_PER_FRAME,
                (time, self.pointer) == time_walk(top(nutshell@), nutshell.width(), nutshell.height(), start, j as nat),
            decreases TIME_READS - j,
        {
            let v = self.color();
            time = (time + v) % TICKS_PER_FRAME;
            j = j + 1;
        }
        time
    }

    /// Writes one note of the voice `voice` with `writer`.
    pub fn compose_note(&mut self, writer: &mut NoteWriter, voice: i64) -> (r: TimedNote)
        requires
            old(self).wf(),
            0 <= voice < WRITERS,
            in_limit(old(writer).base_note as int),
        ensures
            final(self).wf(),
            final(self).nutshell == old(self).nutshell,
            final(writer).base_note == old(writer).base_note,
            (r, final(self).pointer) == composed_note(
                old(self).top(),
                old(self).w(),
                old(self).h(),
                old(self).pointer,
                voice as int,
                old(writer).base_note as int,
            ),
            r.time < TICKS_PER_FRAME,
    {
        let duration = self.color() % 3 + 1;
        writer.set_duration(duration);
        let amplitude = FULL_SCALE / (self.color() % 4 + 1);
        writer.set_amplitude(amplitude);
        writer.decay = (voice + 1) as u64;
        let time = self.note_time();
        writer.set_time(time);
        if self.color() % 8 == 0 {
            let n = self.color() % 7;
            writer.set_note(n as i64);
            writer.note_in_scale()
        } else {
            let n = self.color() % 3;
            writer.set_note(n as i64);
            writer.note_in_minor()
        }
    }

    /// Appends the notes of every voice for one video sample to `notes`.
    pub fn compose_chord(&mut self, adder: i64, notes: &mut Vec<TimedNote>)
        requires
            old(self).wf(),
            0 <= adder < 12,
        ensures
            final(self).wf(),
            final(self).nutshell == old(self).nutshell,
            ({
                let (cn, q) = chord_notes(old(self).top(), old(self).w(), old(self).h(), old(self).pointer, adder as int, WRITERS as nat);
                final(notes)@ == old(notes)@ + cn && final(self).pointer == q
            }),
            final(notes)@.len() == old(notes)@.len() + WRITERS * NOTES_PER_WRITER,
            forall|j: int|
                old(notes)@.len() <= j < final(notes)@.len() ==> #[trigger] final(notes)@[j].time < TICKS_PER_FRAME,
    {
        let ghost start = self.pointer;
        let ghost nutshell = self.nutshell;
        let ghost before = notes@;
        let mut voice: i64 = 0;
        while voice < WRITERS
            invariant
                self.wf(),
                self.nutshell == nutshell,
                0 <= adder < 12,
                0 <= voice <= WRITERS,
                notes@.len() == before.len() + voice * NOTES_PER_WRITER,
                forall|j: int| before.len() <= j < notes@.len() ==> #[trigger] notes@[j].time < TICKS_PER_FRAME,
                ({
                    let (cn, q) = chord_notes(top(nutshell@), nutshell.width(), nutshell.height(), start, adder as int, voice as nat);
                    notes@ == before + cn && self.pointer == q
                }),
            decreases WRITERS - voice,
        {
            let base_note = (voice - 6) * 12 + adder;
            let mut writer = NoteWriter::new(0, base_note);
            let ghost voice_start = self.pointer;
            assert(before.len() <= notes@.len());
            let ghost mid = notes@;
            let mut k: u64 = 0;
            while k < NOTES_PER_WRITER
                invariant
                    self.wf(),
                    self.nutshell == nutshell,
                    0 <= voice < WRITERS,
                    writer.base_note == base_note,
                    base_note == (voice - 6) * 12 + adder,
                    -100 <= base_note <= 100,
                    k <= NOTES_PER_WRITER,
                    before.len() <= mid.len(),
                    notes@.len() == mid.len() + k,
                    forall|j: int| before.len() <= j < notes@.len() ==> #[trigger] notes@[j].time < TICKS_PER_FRAME,
                    ({
                        let (vs, q) = voice_notes(top(nutshell@), nutshell.width(), nutshell.height(), voice_start, voice as int, base_note as int, k as nat);
                        notes@ == mid + vs && self.pointer == q
                    }),
                decreases NOTES_PER_WRITER - k,
            {
                let note = self.compose_note(&mut writer, voice);
                notes.push(note);
                k = k + 1;
                proof {
                    let (vs, q) = voice_notes(top(nutshell@), nutshell.width(), nutshell.height(), voice_start, voice as int, base_note as int, (k - 1) as nat);
                    assert(mid + vs.push(note) =~= (mid + vs).push(note));
                }
            }
            voice = voice + 1;
            proof {
                let (cn, q) = chord_notes(top(nutshell@), nutshell.width(), nutshell.height(), start, adder as int, (voice - 1) as nat);
                let (vs, q2) = voice_notes(top(nutshell@), nutshell.width(), nutshell.height(), q, (voice - 1) as int, base_note as int, NOTES_PER_WRITER as nat);
                assert(before + (cn + vs) =~= (before + cn) + vs);
            }
        }
    }

    /// A snapshot of the top layer.
    pub fn video_sample(&self) -> (r: VideoSample)
        requires
            self.wf(),
        ensures
            r.cells@ == self.top(),
    {
        let cells = copy_layer(&self.nutshell.cells[self.nutshell.layers - 1]);
        VideoSample { cells }
    }

    /// Builds one frame. A first read picks the key; then, for each video
    /// sample, every voice writes its notes from the walk, the top layer is
    /// snapshotted, and the automaton steps.
    pub fn process(&mut self) -> (r: Frame)
        requires
            old(self).wf(),
        ensures
            final(self).wf(),
            final(self).nutshell.size == old(self).nutshell.size,
            final(self).nutshell.layers == old(self).nutshell.layers,
            final(self).nutshell.definition == old(self).nutshell.definition,
            ({
                let w = old(self).w();
                let h = old(self).h();
                let v0 = read_value(old(self).top(), w, old(self).pointer);
                let walk_start = moved(w, h, old(self).pointer, v0);
                let (ns, vs, q, t) = frame_walk(
                    old(self).nutshell@,
                    w,
                    h,
                    old(self).nutshell.definition as int,
                    walk_start,
                    scale_step((v0 % 7) as int),
                    VIDEO_SAMPLES_LENGTH as nat,
                );
                r.notes@ == ns && r.video@ == vs && final(self).pointer == q && final(self).nutshell@ == t
            }),
            r.video.samples@.len() == VIDEO_SAMPLES_LENGTH,
            r.notes@.len() == VIDEO_SAMPLES_LENGTH * WRITERS * NOTES_PER_WRITER,
            forall|j: int| 0 <= j < r.notes@.len() ==> #[trigger] r.notes@[j].time < TICKS_PER_FRAME,
    {
        let ghost s0 = self.nutshell@;
        let ghost w = self.w();
        let ghost h = self.h();
        let ghost d = self.nutshell.definition as int;
        let ghost size = self.nutshell.size;
        let ghost layers = self.nutshell.layers;
        let v0 = self.color();
        let adder = NoteWriter::scale_change((v0 % 7) as i64);
        let ghost walk_start = self.pointer;
        let mut notes: Vec<TimedNote> = Vec::new();
        let mut samples: Vec<VideoSample> = Vec::with_capacity(VIDEO_SAMPLES_LENGTH);
        let mut i: usize = 0;
        while i < VIDEO_SAMPLES_LENGTH
            invariant
                self.wf(),
                self.nutshell.size == size,
                self.nutshell.layers == layers,
                self.nutshell.definition == d,
                w == size.x,
                h == size.y,
                0 <= adder < 12,
                i <= VIDEO_SAMPLES_LENGTH,
                samples@.len() == i,
                notes@.len() == i * (WRITERS * NOTES_PER_WRITER),
                forall|j: int| 0 <= j < notes@.len() ==> #[trigger] notes@[j].time < TICKS_PER_FRAME,
                ({
                    let (ns, vs, q, t) = frame_walk(s0, w, h, d, walk_start, adder as int, i as nat);
                    notes@ == ns && (VideoFrame { samples })@ == vs && self.pointer == q && self.nutshell@ == t
                }),
            decreases VIDEO_SAMPLES_LENGTH - i,
        {
            let ghost old_samples = samples@;
            self.compose_chord(adder, &mut notes);
            let sample = self.video_sample();
            samples.push(sample);
            self.nutshell.step();
            i = i + 1;
            proof {
                assert(i * (WRITERS * NOTES_PER_WRITER) == (i - 1) * (WRITERS * NOTES_PER_WRITER) + WRITERS * NOTES_PER_WRITER) by (nonlinear_arith);
                let (ns, vs, q, t) = frame_walk(s0, w, h, d, walk_start, adder as int, (i - 1) as nat);
                assert((VideoFrame { samples })@ =~= vs.push(top(t)));
            }
        }
        Frame { notes, video: VideoFrame { samples } }
    }
}

} // verus!
