//! The layout of a frame's audio.
use vstd::prelude::*;
use crate::composer::{AUDIO_SAMPLES_LENGTH, SAMPLE_RATE, SECONDS_PER_FRAME};

verus! {

/// The audio side of the program: the device stream lives with the caller.
pub struct AudioEngine {}

/// The interleaved stereo buffer of `frames` sample pairs filled from
/// `wave`: pair `i` is `wave[i]` where the wave reaches, `silence` past its
/// end; whatever the wave holds past `frames` is left out.
pub fn interleave<T: Copy>(wave: &Vec<[T; 2]>, frames: usize, silence: T) -> (r: Vec<T>)
    requires
        2 * frames <= usize::MAX,
    ensures
        r@.len() == 2 * frames,
        forall|i: int|
            0 <= i < frames ==> {
                &&& #[trigger] r@[2 * i] == if i < wave@.len() {
                    wave@[i]@[0]
                } else {
                    silence
                }
                &&& r@[2 * i + 1] == if i < wave@.len() {
                    wave@[i]@[1]
                } else {
                    silence
                }
            },
{
    let mut r: Vec<T> = Vec::with_capacity(2 * frames);
    let mut i: usize = 0;
    while i < frames
        invariant
            2 * frames <= usize::MAX,
            i <= frames,
            r@.len() == 2 * i,
            forall|t: int|
                0 <= t < i ==> {
                    &&& #[trigger] r@[2 * t] == if t < wave@.len() {
                        wave@[t]@[0]
                    } else {
                        silence
                    }
                    &&& r@[2 * t + 1] == if t < wave@.len() {
                        wave@[t]@[1]
                    } else {
                        silence
                    }
                },
        decreases frames - i,
    {
        if i < wave.len() {
            let pair = &wave[i];
            r.push(pair[0]);
            r.push(pair[1]);
        } else {
            r.push(silence);
            r.push(silence);
        }
        i = i + 1;
    }
    r
}

/// The interleaved stereo buffer of one frame, filled from `wave`.
pub fn audio_frame<T: Copy>(wave: &Vec<[T; 2]>, silence: T) -> (r: Vec<T>)
    ensures
        r@.len() == 2 * (SAMPLE_RATE as int) * (SECONDS_PER_FRAME as int),
        forall|i: int|
            0 <= i < AUDIO_SAMPLES_LENGTH ==> {
                &&& #[trigger] r@[2 * i] == if i < wave@.len() {
                    wave@[i]@[0]
                } else {
                    silence
                }
                &&& r@[2 * i + 1] == if i < wave@.len() {
                    wave@[i]@[1]
                } else {
                    silence
                }
            },
{
    let frames = AUDIO_SAMPLES_LENGTH;
    let r = interleave(wave, frames, silence);
    assert forall|i: int| 0 <= i < AUDIO_SAMPLES_LENGTH implies {
        &&& #[trigger] r@[2 * i] == if i < wave@.len() {
            wave@[i]@[0]
        } else {
            silence
        }
        &&& r@[2 * i + 1] == if i < wave@.len() {
            wave@[i]@[1]
        } else {
            silence
        }
    } by {
        assert(0 <= i < frames);
    }
    r
}

} // verus!
