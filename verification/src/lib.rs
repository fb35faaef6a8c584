//! Symbolic chord identification and construction for Western tonal music.
//!
//! The crate maps a set of notes to the named chords it can stand for
//! (root, modifiers, extensions, inversion, slash note) and maps such a
//! chord back to its notes.  Everything is a value: no function changes
//! what it is given, and none keeps state.
//!
//! The modules, from the leaves up:
//!
//! - [`pitch`], [`named_pitch`], [`octave`], [`note`]: the twelve pitch
//!   classes, their spellings, and notes with their identities.
//! - [`interval`]: named intervals, and the transposition of notes.
//! - [`note_set`]: the 128-bit set of note identities, and sets of pitch
//!   classes.
//! - [`modifier`], [`tones`]: the vocabulary of chord quality, and the
//!   tones that it calls for.
//! - [`chord`]: the chord descriptor, its notes and its name.
//! - [`catalog`]: the chord qualities that notes are matched against.
//! - [`identify`]: the candidates of the twelve roots, the bass, the
//!   ranking, and the names.
//! - [`parser`]: reading note names and octave digits.
//! - [`sample`]: random groups of notes.
//! - [`laws`]: what holds of identification and construction together,
//!   with its supporting steps in [`build_proofs`] and
//!   [`identify_proofs`].
//!
//! Every executable function carries a contract over the mathematical
//! model of its data, and Verus proves each function against its
//! contract.

pub mod base;
pub mod build_proofs;
pub mod catalog;
pub mod chord;
pub mod error;
pub mod identify;
pub mod identify_proofs;
pub mod interval;
pub mod laws;
pub mod modifier;
pub mod named_pitch;
pub mod note;
pub mod note_set;
pub mod octave;
pub mod parser;
pub mod pitch;
pub mod sample;
pub mod tones;
