//! The rules of a speech-to-text program: what is printed and appended to a transcript while a
//! model turns audio into words, when the transcript file is synced, how captured audio is cut into
//! chunks, and when load is shed.
//!
//! The library does no input or output, reads no clock and computes with no fractions. It is told
//! what happened, in plain values, and answers with what to do. Clock readings are nanoseconds; a
//! fraction that a rule looks at comes in as its bit pattern; samples are of any type.

pub mod audio;
pub mod batch;
pub mod batch_history;
pub mod batch_laws;
pub mod capture;
pub mod capture_laws;
pub mod clock;
pub mod config;
pub mod device;
pub mod mode;
pub mod scores;
pub mod single;
pub mod streaming;
pub mod streaming_flow;
pub mod streaming_history;
pub mod streaming_laws;
pub mod text;
pub mod transcript_laws;
pub mod writer;
