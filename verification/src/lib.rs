//! Spatio-temporal axis transposition of decoded video.
//!
//! A clip of `T` frames, each `X` pixels wide and `Y` pixels high, is turned
//! into a clip of `X` frames, each `T` pixels wide (rounded up to an even
//! number) and `Y` pixels high: output frame `x` gathers column `x` of every
//! input frame, and its column `t` holds what input frame `t` had there.
//!
//! The crate holds the frame buffer model, the pixel re-indexing, the
//! reconstruction of constant-rate timestamps and the control logic of a run.
//! Decoding, scaling, encoding and muxing are left to the caller.
//!
//! - `image`: the mathematical model of a picture and of a clip;
//! - `frame`: a picture as packed RGB bytes with a row stride;
//! - `store`: the append-only frame store and the read-only volume it is
//!   finalized into;
//! - `transpose`: the transposed clip, the function that builds one output
//!   frame, and what holds of both;
//! - `rational`, `timestamp`: exact frame rates and time bases, the
//!   timestamp increment and the running timestamp;
//! - `pipeline`: the state machine that drives a run;
//! - `trace`: what holds of every run;
//! - `error`: the fatal conditions.

pub mod error;
pub mod frame;
pub mod image;
pub mod pipeline;
pub mod rational;
pub mod store;
pub mod timestamp;
pub mod trace;
pub mod transpose;
