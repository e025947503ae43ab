//! What holds of the counts whatever the chunks are: the byte, line and word
//! totals depend on the content alone, not on where it was cut.

use crate::count::{chunks, content, delivered, lemma_delivered, outcome, ReadOutcome};
use crate::decode::{is_ascii_bytes, lemma_ascii_is_text};
use crate::progress::{all_valid_text, decoded_chars, text_chars, Progress};
use crate::stream::ReadError;
use crate::text::{
    closed_runs, closed_words, ends_in_word, in_word_after, is_delimiter,
    lemma_newline_count_concat, lemma_words_closed_concat, newline_count,
};
use vstd::prelude::*;
use vstd::relations::injective_on;
use vstd::set_lib::lemma_map_size;
use vstd::utf8::valid_utf8;

verus! {

/// The byte, line and word totals after reading `chunks`, and whether a word
/// is left open, are those of the chunks joined into one content.
pub proof fn law_totals_follow_content(chunks: Seq<Seq<u8>>)
    ensures
        Progress::of(chunks).bytes == chunks.flatten().len(),
        Progress::of(chunks).lines == newline_count(chunks.flatten()),
        Progress::of(chunks).words == closed_words(chunks.flatten()),
        Progress::of(chunks).in_word == ends_in_word(chunks.flatten()),
    decreases chunks.len(),
{
    if chunks.len() == 0 {
        assert(newline_count(Seq::<u8>::empty()) == 0) by {
            reveal(Seq::filter);
        }
    } else {
        let front = chunks.drop_last();
        let chunk = chunks.last();
        law_totals_follow_content(front);
        assert(chunks =~= front.push(chunk));
        front.lemma_flatten_push(chunk);
        lemma_newline_count_concat(front.flatten(), chunk);
        lemma_words_closed_concat(false, front.flatten(), chunk);
    }
}

/// The byte total is the number of bytes that the reads delivered.
pub proof fn law_bytes_are_all_bytes_read(chunks: Seq<Seq<u8>>)
    ensures
        Progress::of(chunks).bytes == chunks.flatten().len(),
{
    law_totals_follow_content(chunks);
}

/// The line total is the number of line feed bytes in the content, wherever
/// the chunk boundaries fall.
pub proof fn law_lines_are_newlines(chunks: Seq<Seq<u8>>)
    ensures
        Progress::of(chunks).lines == newline_count(chunks.flatten()),
{
    law_totals_follow_content(chunks);
}

/// Two ways of cutting one content into chunks give the same byte, line and
/// word totals, and agree on whether the content ends inside a word.
pub proof fn law_chunking_invariance(one: Seq<Seq<u8>>, other: Seq<Seq<u8>>)
    requires
        one.flatten() == other.flatten(),
    ensures
        Progress::of(one).bytes == Progress::of(other).bytes,
        Progress::of(one).lines == Progress::of(other).lines,
        Progress::of(one).words == Progress::of(other).words,
        Progress::of(one).in_word == Progress::of(other).in_word,
{
    law_totals_follow_content(one);
    law_totals_follow_content(other);
}

/// Two streams with the same content, neither of which fails, are counted to
/// the same byte, line and word totals, however differently their reads cut
/// the content.
pub proof fn law_streams_of_one_content_agree(one: Seq<ReadOutcome>, other: Seq<ReadOutcome>)
    requires
        content(one) == content(other),
        outcome(one) is Ok,
        outcome(other) is Ok,
    ensures
        outcome(one)->Ok_0.bytes == outcome(other)->Ok_0.bytes,
        outcome(one)->Ok_0.lines == outcome(other)->Ok_0.lines,
        outcome(one)->Ok_0.words == outcome(other)->Ok_0.words,
{
    law_chunking_invariance(chunks(one), chunks(other));
}

/// The character total is the sum of what the chunks decode to, each by
/// itself: it is the one total that depends on where the content is cut.
pub proof fn law_chars_are_counted_per_chunk(chunks: Seq<Seq<u8>>)
    ensures
        Progress::of(chunks).chars == decoded_chars(chunks),
    decreases chunks.len(),
{
    if chunks.len() > 0 {
        law_chars_are_counted_per_chunk(chunks.drop_last());
    }
}

/// Chunks of ASCII text are valid text, and hold as many characters as
/// bytes.
pub proof fn law_ascii_chars_are_bytes(chunks: Seq<Seq<u8>>)
    requires
        forall|i: int| 0 <= i < chunks.len() ==> is_ascii_bytes(#[trigger] chunks[i]),
    ensures
        all_valid_text(chunks),
        text_chars(chunks) == chunks.flatten().len(),
    decreases chunks.len(),
{
    assert forall|i: int| 0 <= i < chunks.len() implies valid_utf8(#[trigger] chunks[i]) by {
        lemma_ascii_is_text(chunks[i]);
    }
    if chunks.len() > 0 {
        let front = chunks.drop_last();
        assert forall|i: int| 0 <= i < front.len() implies is_ascii_bytes(#[trigger] front[i]) by {
            assert(front[i] == chunks[i]);
        }
        law_ascii_chars_are_bytes(front);
        lemma_ascii_is_text(chunks.last());
        assert(chunks =~= front.push(chunks.last()));
        front.lemma_flatten_push(chunks.last());
    }
}

/// A stream that ends before it delivers a byte has all four counts zero.
pub proof fn law_empty_stream_counts_nothing(reads: Seq<ReadOutcome>)
    requires
        reads.len() == 0 || !(reads[0].delivers() || reads[0] is Failed),
    ensures
        outcome(reads) == Ok::<Progress, ReadError>(Progress::start()),
        content(reads) == Seq::<u8>::empty(),
{
    lemma_delivered(reads, 0);
    assert(chunks(reads) =~= Seq::empty());
}

/// A read that fails after `taken` reads have delivered their chunks makes
/// the count fail with that read's cause, whatever the chunks held: nothing
/// of them is reported.
pub proof fn law_failure_discards_the_count(reads: Seq<ReadOutcome>, taken: int, cause: String)
    requires
        0 <= taken < reads.len(),
        forall|i: int| 0 <= i < taken ==> (#[trigger] reads[i]).delivers(),
        reads[taken] == ReadOutcome::Failed(cause),
    ensures
        outcome(reads) == Err::<Progress, ReadError>(ReadError { cause }),
{
    lemma_delivered(reads, taken);
}

/// A stream none of whose reads fails is counted, whatever its bytes are:
/// content that is no valid text is no error.
pub proof fn law_content_never_fails(reads: Seq<ReadOutcome>)
    requires
        forall|i: int| 0 <= i < reads.len() ==> !(#[trigger] reads[i] is Failed),
    ensures
        outcome(reads) == Ok::<Progress, ReadError>(Progress::of(chunks(reads))),
        Progress::of(chunks(reads)).bytes == content(reads).len(),
        Progress::of(chunks(reads)).lines == newline_count(content(reads)),
        Progress::of(chunks(reads)).chars == decoded_chars(chunks(reads)),
{
    lemma_delivered_in_range(reads);
    law_totals_follow_content(chunks(reads));
    law_chars_are_counted_per_chunk(chunks(reads));
}

proof fn lemma_delivered_in_range(reads: Seq<ReadOutcome>)
    ensures
        delivered(reads) <= reads.len(),
    decreases reads.len(),
{
    if reads.len() > 0 {
        lemma_delivered_in_range(reads.drop_first());
    }
}

/// The positions of the delimiters that close a word.
spec fn word_ends(content: Seq<u8>) -> Set<int> {
    Set::new(
        |to: int|
            0 < to < content.len() && is_delimiter(content[to]) && !is_delimiter(content[to - 1]),
    )
}

/// Where the run of word bytes that ends just before `to` begins.
spec fn run_start(content: Seq<u8>, to: int) -> int
    decreases to,
{
    if 0 < to <= content.len() && !is_delimiter(content[to - 1]) {
        run_start(content, to - 1)
    } else {
        to
    }
}

proof fn lemma_word_ends_count(content: Seq<u8>)
    ensures
        word_ends(content).finite(),
        word_ends(content).len() == closed_words(content),
    decreases content.len(),
{
    if content.len() == 0 {
        assert(word_ends(content) =~= Set::empty());
    } else {
        let head = content.drop_last();
        let last = content.len() - 1;
        lemma_word_ends_count(head);
        if is_delimiter(content.last()) && in_word_after(false, head) {
            assert(word_ends(content) =~= word_ends(head).insert(last));
        } else {
            assert(word_ends(content) =~= word_ends(head));
        }
    }
}

proof fn lemma_run_start(content: Seq<u8>, to: int)
    requires
        0 <= to <= content.len(),
    ensures
        0 <= run_start(content, to) <= to,
        forall|i: int| run_start(content, to) <= i < to ==> !is_delimiter(#[trigger] content[i]),
        run_start(content, to) == 0 || is_delimiter(content[run_start(content, to) - 1]),
    decreases to,
{
    if 0 < to && !is_delimiter(content[to - 1]) {
        lemma_run_start(content, to - 1);
    }
}

proof fn lemma_run_start_unique(content: Seq<u8>, from: int, to: int)
    requires
        0 <= from <= to <= content.len(),
        forall|i: int| from <= i < to ==> !is_delimiter(#[trigger] content[i]),
        from == 0 || is_delimiter(content[from - 1]),
    ensures
        run_start(content, to) == from,
    decreases to - from,
{
    if from < to {
        lemma_run_start_unique(content, from, to - 1);
    }
}

/// The word count of a content is the number of its closed words: of the
/// maximal runs of non-delimiter bytes that a delimiter follows. A run that
/// reaches the end of the content is in no such pair, and is not counted.
pub proof fn law_words_are_closed_runs(content: Seq<u8>)
    ensures
        closed_runs(content).finite(),
        closed_words(content) == closed_runs(content).len(),
{
    let ends = word_ends(content);
    let span = |to: int| (run_start(content, to), to);
    lemma_word_ends_count(content);
    assert forall|run: (int, int)| closed_runs(content).contains(run) implies ends.map(
        span,
    ).contains(run) by {
        lemma_run_start_unique(content, run.0, run.1);
        assert(ends.contains(run.1));
        assert(run == span(run.1));
    }
    assert forall|run: (int, int)| ends.map(span).contains(run) implies closed_runs(
        content,
    ).contains(run) by {
        let to = choose|to: int| ends.contains(to) && run == span(to);
        lemma_run_start(content, to);
    }
    assert(ends.map(span) =~= closed_runs(content));
    assert(injective_on(span, ends));
    lemma_map_size(ends, closed_runs(content), span);
}

/// The word total after reading `chunks` is the number of closed words in
/// the content that the chunks make up.
pub proof fn law_word_total_counts_closed_runs(chunks: Seq<Seq<u8>>)
    ensures
        closed_runs(chunks.flatten()).finite(),
        Progress::of(chunks).words == closed_runs(chunks.flatten()).len(),
{
    law_totals_follow_content(chunks);
    law_words_are_closed_runs(chunks.flatten());
}

} // verus!
