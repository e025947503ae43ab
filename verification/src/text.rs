//! The content model: which bytes delimit words, and what the line and word
//! counts of a byte sequence are.

use vstd::prelude::*;

verus! {

/// The line feed byte, which ends a line.
pub const NEWLINE: u8 = 0x0A;

/// The space byte.
pub const SPACE: u8 = 0x20;

/// The horizontal tab byte.
pub const TAB: u8 = 0x09;

/// A delimiter is a newline, a space or a tab. Every other byte is part of a
/// word.
pub open spec fn is_delimiter(byte: u8) -> bool {
    byte == NEWLINE || byte == SPACE || byte == TAB
}

/// Whether `byte` is the line feed.
pub open spec fn is_newline(byte: u8) -> bool {
    byte == NEWLINE
}

/// The number of line feed bytes in `content`.
pub open spec fn newline_count(content: Seq<u8>) -> nat {
    content.filter(|byte: u8| is_newline(byte)).len()
}

/// Whether a word is open after `chunk` has been read, given whether one was
/// open before it: the last byte read, if there is any, decides.
pub open spec fn in_word_after(open: bool, chunk: Seq<u8>) -> bool {
    if chunk.len() == 0 {
        open
    } else {
        !is_delimiter(chunk.last())
    }
}

/// The number of words that end inside `chunk`, given whether a word was open
/// before it. A word ends at each delimiter that directly follows a
/// non-delimiter byte.
pub open spec fn words_closed(open: bool, chunk: Seq<u8>) -> nat
    decreases chunk.len(),
{
    if chunk.len() == 0 {
        0
    } else {
        let head = chunk.drop_last();
        let closes: nat = if is_delimiter(chunk.last()) && in_word_after(open, head) {
            1
        } else {
            0
        };
        words_closed(open, head) + closes
    }
}

/// The word count of a whole content: the words that a delimiter has closed.
/// A run of word bytes that reaches the end of the content is not counted.
pub open spec fn closed_words(content: Seq<u8>) -> nat {
    words_closed(false, content)
}

/// Whether `content[from..to]` is a word that a delimiter has closed: a run of
/// non-delimiter bytes that cannot be extended to the left, and that the
/// delimiter at `to` follows.
pub open spec fn is_closed_run(content: Seq<u8>, from: int, to: int) -> bool {
    &&& 0 <= from < to < content.len()
    &&& forall|i: int| from <= i < to ==> !is_delimiter(#[trigger] content[i])
    &&& (from == 0 || is_delimiter(content[from - 1]))
    &&& is_delimiter(content[to])
}

/// The closed words of a content, each as the position of its first byte and
/// the position of the delimiter that follows its last.
pub open spec fn closed_runs(content: Seq<u8>) -> Set<(int, int)> {
    Set::new(|run: (int, int)| is_closed_run(content, run.0, run.1))
}

/// Whether the content ends inside a word.
pub open spec fn ends_in_word(content: Seq<u8>) -> bool {
    in_word_after(false, content)
}

/// One more byte adds one to the newline count if it is a line feed.
pub proof fn lemma_newline_count_push(content: Seq<u8>, byte: u8)
    ensures
        newline_count(content.push(byte)) == newline_count(content) + if is_newline(byte) {
            1nat
        } else {
            0nat
        },
{
    content.lemma_filter_len_push(|byte: u8| is_newline(byte), byte);
}

/// A content has no more line feeds than bytes.
pub proof fn lemma_newline_count_bound(content: Seq<u8>)
    ensures
        newline_count(content) <= content.len(),
{
    content.lemma_filter_len(|byte: u8| is_newline(byte));
}

/// The newline count of two contents joined is the sum of their counts.
pub proof fn lemma_newline_count_concat(front: Seq<u8>, back: Seq<u8>)
    ensures
        newline_count(front + back) == newline_count(front) + newline_count(back),
{
    Seq::filter_distributes_over_add(front, back, |byte: u8| is_newline(byte));
}

/// One more byte closes a word if it is a delimiter and a word was open.
pub proof fn lemma_words_closed_push(open: bool, chunk: Seq<u8>, byte: u8)
    ensures
        words_closed(open, chunk.push(byte)) == words_closed(open, chunk) + if is_delimiter(byte)
            && in_word_after(open, chunk) {
            1nat
        } else {
            0nat
        },
        in_word_after(open, chunk.push(byte)) == !is_delimiter(byte),
{
    assert(chunk.push(byte).drop_last() =~= chunk);
}

/// No more words end inside a chunk than it has bytes.
pub proof fn lemma_words_closed_bound(open: bool, chunk: Seq<u8>)
    ensures
        words_closed(open, chunk) <= chunk.len(),
    decreases chunk.len(),
{
    if chunk.len() > 0 {
        lemma_words_closed_bound(open, chunk.drop_last());
    }
}

/// Reading `front` and then `back` closes the words that reading them as one
/// chunk closes, and leaves a word open in the same cases: only whether a
/// word is open has to be carried from one chunk to the next.
pub proof fn lemma_words_closed_concat(open: bool, front: Seq<u8>, back: Seq<u8>)
    ensures
        words_closed(open, front + back) == words_closed(open, front) + words_closed(
            in_word_after(open, front),
            back,
        ),
        in_word_after(open, front + back) == in_word_after(in_word_after(open, front), back),
    decreases back.len(),
{
    if back.len() == 0 {
        assert(front + back =~= front);
    } else {
        let head = back.drop_last();
        assert((front + back).drop_last() =~= front + head);
        lemma_words_closed_concat(open, front, head);
    }
}

/// Tells whether `byte` is a delimiter.
pub fn delimits(byte: u8) -> (out: bool)
    ensures
        out == is_delimiter(byte),
{
    byte == NEWLINE || byte == SPACE || byte == TAB
}

/// Counts the line feed bytes of `chunk`.
pub fn count_newlines(chunk: &[u8]) -> (count: usize)
    ensures
        count == newline_count(chunk@),
{
    let mut count: usize = 0;
    let mut i: usize = 0;
    while i < chunk.len()
        invariant
            i <= chunk.len(),
            count <= i,
            count == newline_count(chunk@.take(i as int)),
        decreases chunk.len() - i,
    {
        proof {
            assert(chunk@.take(i + 1) =~= chunk@.take(i as int).push(chunk@[i as int]));
            lemma_newline_count_push(chunk@.take(i as int), chunk@[i as int]);
        }
        if chunk[i] == NEWLINE {
            count += 1;
        }
        i += 1;
    }
    proof {
        assert(chunk@.take(i as int) =~= chunk@);
    }
    count
}

/// Scans `chunk` byte by byte for the ends of words. `open` tells whether a
/// word was open before the chunk; the result is the number of words that a
/// delimiter of the chunk closed, and whether a word is open after it.
pub fn scan_words(open: bool, chunk: &[u8]) -> (out: (usize, bool))
    ensures
        out.0 == words_closed(open, chunk@),
        out.1 == in_word_after(open, chunk@),
{
    let mut words: usize = 0;
    let mut in_word = open;
    let mut i: usize = 0;
    while i < chunk.len()
        invariant
            i <= chunk.len(),
            words <= i,
            words == words_closed(open, chunk@.take(i as int)),
            in_word == in_word_after(open, chunk@.take(i as int)),
        decreases chunk.len() - i,
    {
        proof {
            assert(chunk@.take(i + 1) =~= chunk@.take(i as int).push(chunk@[i as int]));
            lemma_words_closed_push(open, chunk@.take(i as int), chunk@[i as int]);
        }
        if delimits(chunk[i]) {
            if in_word {
                words += 1;
                in_word = false;
            }
        } else {
            in_word = true;
        }
        i += 1;
    }
    proof {
        assert(chunk@.take(i as int) =~= chunk@);
    }
    (words, in_word)
}

} // verus!
