//! Client-side decoding pipeline for a newline-delimited JSON generation
//! stream: a line reassembler that turns raw byte chunks into complete,
//! trimmed lines, and an event decoder that classifies each line into a
//! typed generation event.

pub mod decoder;
pub mod events;
pub mod json;
pub mod reassembler;
pub mod request;
pub mod stream;
