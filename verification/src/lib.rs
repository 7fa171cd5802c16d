//! Core of a real-time audio loopback pipeline.
//!
//! A capture callback and a render callback, each driven by its own hardware
//! clock, are decoupled by a set of per-channel FIFO buffers of canonical
//! samples. This crate holds the pieces of that pipeline that are pure logic:
//! the dynamic description of sample formats, the per-channel buffers with
//! their underrun policies, the integer side of sample conversion, and the
//! interleaved/planar layout adaptation. Driving real hardware streams is left
//! to a host program built on top of these.

pub mod audio_format;
pub mod buffer;
pub mod convert;
pub mod layout;
pub mod sample_format;
