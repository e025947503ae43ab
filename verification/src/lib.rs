//! Streaming text statistics: the line, word, byte and character counts of a
//! byte stream that is read one bounded chunk at a time.
//!
//! - [`text`] says which bytes delimit words, and what the line and word
//!   counts of a content are.
//! - [`decode`] counts the characters of a chunk by permissive decoding.
//! - [`progress`] is the mathematical counter state, and [`counter`] the
//!   state that is kept from chunk to chunk.
//! - [`stream`] decides after each read of a stream how the count goes on,
//!   and [`count`] counts a whole stream from the record of its reads.
//! - [`laws`] proves that the byte, line and word totals are those of the
//!   content, however it is cut into chunks.
//! - [`report`] renders the counts as lines of text.

pub mod count;
pub mod counter;
pub mod decode;
pub mod laws;
pub mod progress;
pub mod report;
pub mod stream;
pub mod text;
