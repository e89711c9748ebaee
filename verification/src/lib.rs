//! Emulation prevention for coded video payloads.
//!
//! A payload that is embedded in a self-delimited bitstream must not hold a
//! run of two zero bytes followed by a byte of value three or less, because
//! such a run is reserved for structural markers. [`nalu_encode`] breaks up
//! every such run by inserting an escape byte, and [`nalu_decode`] takes the
//! escape bytes out again.
//!
//! * [`model`] says, over sequences of bytes, what the two transforms are.
//! * [`codec`] holds the two executable transforms.
//! * [`laws`] holds what is proved of the two transforms together.

pub mod codec;
pub mod laws;
pub mod model;

pub use codec::{nalu_decode, nalu_encode};
