//! The counter state: the accumulators that are kept from one chunk of a
//! stream to the next.

use crate::decode::{decoding_known, lossy_char_count};
use crate::progress::Progress;
use crate::text::{
    count_newlines, lemma_newline_count_bound, lemma_words_closed_bound, scan_words,
};
use vstd::prelude::*;

verus! {

/// The four counts of a stream.
#[derive(Clone, Copy, Debug, PartialEq, Eq)]
pub struct Tally {
    pub lines: u128,
    pub words: u128,
    pub bytes: u128,
    pub chars: u128,
}

impl Tally {
    /// Whether the tally holds exactly the totals of `progress`.
    pub open spec fn reports(self, progress: Progress) -> bool {
        &&& self.lines == progress.lines
        &&& self.words == progress.words
        &&& self.bytes == progress.bytes
        &&& self.chars == progress.chars
    }

    /// Whether the sums of the two tallies fit their fields.
    pub open spec fn fits_with(self, other: Tally) -> bool {
        &&& self.lines + other.lines <= u128::MAX
        &&& self.words + other.words <= u128::MAX
        &&& self.bytes + other.bytes <= u128::MAX
        &&& self.chars + other.chars <= u128::MAX
    }

    /// Adds the counts of another stream, for the totals over several
    /// streams. There is no sum where one of the four would overflow.
    pub fn checked_add(&self, other: &Tally) -> (sum: Option<Tally>)
        ensures
            sum is Some <==> self.fits_with(*other),
            sum matches Some(total) ==> {
                &&& total.lines == self.lines + other.lines
                &&& total.words == self.words + other.words
                &&& total.bytes == self.bytes + other.bytes
                &&& total.chars == self.chars + other.chars
            },
    {
        if self.lines > u128::MAX - other.lines || self.words > u128::MAX - other.words
            || self.bytes > u128::MAX - other.bytes || self.chars > u128::MAX - other.chars {
            None
        } else {
            Some(
                Tally {
                    lines: self.lines + other.lines,
                    words: self.words + other.words,
                    bytes: self.bytes + other.bytes,
                    chars: self.chars + other.chars,
                },
            )
        }
    }
}

/// The accumulators of one stream. A state starts at zero, absorbs the
/// chunks of its stream in their order, and is read out at the end.
///
/// The totals are 128 bits wide: no stream that a machine can deliver
/// overflows them.
#[derive(Debug)]
pub struct CounterState {
    lines: u128,
    words: u128,
    bytes: u128,
    chars: u128,
    in_word: bool,
}

impl View for CounterState {
    type V = Progress;

    closed spec fn view(&self) -> Progress {
        Progress {
            lines: self.lines as nat,
            words: self.words as nat,
            bytes: self.bytes as nat,
            chars: self.chars as nat,
            in_word: self.in_word,
        }
    }
}

impl CounterState {
    /// Every line feed and every closed word took at least one byte.
    #[verifier::type_invariant]
    spec fn within_bytes(self) -> bool {
        self.lines <= self.bytes && self.words <= self.bytes
    }

    /// A state that has read nothing.
    pub fn new() -> (state: CounterState)
        ensures
            state@ == Progress::start(),
    {
        CounterState { lines: 0, words: 0, bytes: 0, chars: 0, in_word: false }
    }

    /// The number of line feeds read so far.
    pub fn lines(&self) -> (count: u128)
        ensures
            count == self@.lines,
    {
        self.lines
    }

    /// The number of words closed so far.
    pub fn words(&self) -> (count: u128)
        ensures
            count == self@.words,
    {
        self.words
    }

    /// The number of bytes read so far.
    pub fn bytes(&self) -> (count: u128)
        ensures
            count == self@.bytes,
    {
        self.bytes
    }

    /// The number of characters decoded so far.
    pub fn chars(&self) -> (count: u128)
        ensures
            count == self@.chars,
    {
        self.chars
    }

    /// Whether the last byte read was part of a word.
    pub fn in_word(&self) -> (open: bool)
        ensures
            open == self@.in_word,
    {
        self.in_word
    }

    /// The four totals as they stand.
    pub fn tally(&self) -> (tally: Tally)
        ensures
            tally.reports(self@),
    {
        Tally { lines: self.lines, words: self.words, bytes: self.bytes, chars: self.chars }
    }

    /// Whether the totals have room for one more chunk of `filled` bytes.
    pub fn has_room(&self, filled: usize) -> (room: bool)
        ensures
            room == self@.has_room(filled as nat),
    {
        self.bytes <= u128::MAX - filled as u128 && self.chars <= u128::MAX - usize::MAX as u128
    }

    /// Absorbs one chunk whose decoded character count the caller has at
    /// hand. The byte and character totals must have room for the chunk.
    pub fn record(&mut self, chunk: &[u8], decoded: usize)
        requires
            old(self)@.bytes + chunk@.len() <= u128::MAX,
            old(self)@.chars + decoded <= u128::MAX,
        ensures
            final(self)@ == old(self)@.advance(chunk@, decoded as nat),
    {
        proof {
            use_type_invariant(&*self);
            lemma_newline_count_bound(chunk@);
            lemma_words_closed_bound(self.in_word, chunk@);
        }
        let newlines = count_newlines(chunk);
        let (closed, open) = scan_words(self.in_word, chunk);
        *self = CounterState {
            lines: self.lines + newlines as u128,
            words: self.words + closed as u128,
            bytes: self.bytes + chunk.len() as u128,
            chars: self.chars + decoded as u128,
            in_word: open,
        };
    }

    /// Absorbs one chunk: decodes it permissively for the character count and
    /// scans its bytes for line feeds and word ends. The totals must have
    /// room for the chunk.
    pub fn update(&mut self, chunk: &[u8])
        requires
            old(self)@.has_room(chunk@.len()),
        ensures
            final(self)@ == old(self)@.absorb(chunk@),
            decoding_known(chunk@),
    {
        let decoded = lossy_char_count(chunk);
        self.record(chunk, decoded);
    }
}

} // verus!
