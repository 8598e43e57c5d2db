//! Pronounceable fantasy-name generation.
//!
//! Names are assembled from two fixed tables of syllable fragments, one of
//! consonant sounds and one of vowel sounds, drawn alternately at random.
//! Each fragment carries a placement mask saying where in a word it may
//! stand (beginning, middle, end); a rejection-sampling loop redraws until a
//! fragment legal for the current position comes up. The finished name has
//! its first character uppercased.

pub mod tables;
mod random;
pub mod text;
pub mod totro;

pub use totro::InvalidRange;
pub use totro::Totro;
