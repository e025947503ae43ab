//! The counts as mathematical values, and how one chunk changes them.

use crate::decode::lossy_decode;
use crate::text::{in_word_after, newline_count, words_closed};
use vstd::prelude::*;
use vstd::utf8::{decode_utf8, valid_utf8};

verus! {

/// The state of a count between two chunks: the four totals so far, and
/// whether the last byte read was part of a word.
pub struct Progress {
    pub lines: nat,
    pub words: nat,
    pub bytes: nat,
    pub chars: nat,
    pub in_word: bool,
}

impl Progress {
    /// The state before anything has been read.
    pub open spec fn start() -> Progress {
        Progress { lines: 0, words: 0, bytes: 0, chars: 0, in_word: false }
    }

    /// Whether the totals have room for one more chunk of `filled` bytes: the
    /// byte total for the bytes, and the character total for as many
    /// characters as a chunk can decode to at most.
    pub open spec fn has_room(self, filled: nat) -> bool {
        self.bytes + filled <= u128::MAX && self.chars + usize::MAX <= u128::MAX
    }

    /// The state after one more chunk, of which `decoded` characters were
    /// decoded.
    pub open spec fn advance(self, chunk: Seq<u8>, decoded: nat) -> Progress {
        Progress {
            lines: self.lines + newline_count(chunk),
            words: self.words + words_closed(self.in_word, chunk),
            bytes: self.bytes + chunk.len(),
            chars: self.chars + decoded,
            in_word: in_word_after(self.in_word, chunk),
        }
    }

    /// The state after one more chunk. Each chunk is decoded by itself, so a
    /// character whose bytes lie on both sides of a chunk boundary is counted
    /// as what each side decodes to.
    pub open spec fn absorb(self, chunk: Seq<u8>) -> Progress {
        self.advance(chunk, lossy_decode(chunk).len())
    }

    /// The state after the chunks have been absorbed in their order.
    pub open spec fn absorb_all(self, chunks: Seq<Seq<u8>>) -> Progress
        decreases chunks.len(),
    {
        if chunks.len() == 0 {
            self
        } else {
            self.absorb_all(chunks.drop_last()).absorb(chunks.last())
        }
    }

    /// The state of a count that has read exactly `chunks`.
    pub open spec fn of(chunks: Seq<Seq<u8>>) -> Progress {
        Progress::start().absorb_all(chunks)
    }
}

/// The number of characters that the chunks decode to, each chunk decoded
/// permissively and by itself.
pub open spec fn decoded_chars(chunks: Seq<Seq<u8>>) -> nat
    decreases chunks.len(),
{
    if chunks.len() == 0 {
        0
    } else {
        decoded_chars(chunks.drop_last()) + lossy_decode(chunks.last()).len()
    }
}

/// Whether each chunk is valid UTF-8 by itself: no chunk boundary falls
/// inside the bytes of a character.
pub open spec fn all_valid_text(chunks: Seq<Seq<u8>>) -> bool {
    forall|i: int| 0 <= i < chunks.len() ==> valid_utf8(#[trigger] chunks[i])
}

/// The number of characters that the chunks encode, where each is valid
/// UTF-8.
pub open spec fn text_chars(chunks: Seq<Seq<u8>>) -> nat
    decreases chunks.len(),
{
    if chunks.len() == 0 {
        0
    } else {
        text_chars(chunks.drop_last()) + decode_utf8(chunks.last()).len()
    }
}

} // verus!
