//! A media composition engine: it plans and tracks the encoding of a sequence
//! of still frames into a video by an external encoder, and mixes
//! independently timed sound clips into one audio track.
//!
//! The engine itself performs no I/O. The surrounding application spawns the
//! encoder, decodes sound files and writes the results; the engine decides
//! what is valid, what happens next and what the mixed samples are.
//!
//! - [`catalog`]: the video encoders that the toolchain offers.
//! - [`pipeline`]: one-shot conversion of numbered still images.
//! - [`session`]: the streaming encoding session and its states.
//! - [`audio`] and [`mixer`]: sounds, their conversion, and the mix.
//! - [`resolution`]: frame sizes as text.
//! - [`opened_files`]: the files named on the command line.
//! - [`error`]: the failures that all of them report.

pub mod audio;
pub mod catalog;
pub mod error;
pub mod mixer;
pub mod opened_files;
pub mod pipeline;
pub mod resolution;
pub mod session;
