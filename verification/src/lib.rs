//! Symbolic music generation from formal grammars.
//!
//! Two engines make up the library: an L-system rewriting engine that
//! expands a seed string under a set of production rules, and a
//! music-theory engine that maps the symbols of the expanded string to
//! pitches, given a key (tonic and scale kind) and a tuning system
//! (temperament).  A voice-building layer drives a symbol-to-action state
//! machine over the expanded string and collects notes and rests.
//!
//! Frequencies are kept exact: a pitch is a whole-number ratio together
//! with an offset in equal-tempered semitones, both relative to the
//! reference pitch (the frequency chosen for A above middle C).  Turning a
//! pitch into Hertz is left to the caller.

pub mod action;
pub mod key;
pub mod l_system;
pub mod musical_notation;
pub mod proportion;
pub mod temperament;
pub mod text;
pub mod voice;
