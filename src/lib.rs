//! An endless audio-visual composition: a layered cellular automaton drives a
//! musical score and a pixel animation, handed between a producer, an audio
//! consumer and a display consumer, with a multi-tap echo on the audio path.
pub mod geometry;
pub mod automaton;
pub mod music;
pub mod composer;
pub mod reverb;
pub mod protocol;
pub mod nutshell;
pub mod room;
pub mod audio;
pub mod window;
