//! Counting a whole stream from the record of its reads.

use crate::counter::{CounterState, Tally};
use crate::laws::{law_chars_are_counted_per_chunk, law_totals_follow_content};
use crate::progress::{all_valid_text, decoded_chars, text_chars, Progress};
use crate::stream::{Action, ReadError, ReadStatus};
use crate::text::{closed_words, newline_count};
use vstd::prelude::*;

verus! {

/// One read of a stream, with the bytes that it delivered.
#[derive(Clone, Debug, PartialEq, Eq)]
pub enum ReadOutcome {
    /// The read delivered these bytes. A read that delivers none marks the
    /// end of the stream.
    Data(Vec<u8>),
    /// The stream has ended.
    EndOfStream,
    /// The read failed, for the given cause.
    Failed(String),
}

impl ReadOutcome {
    /// Whether the read delivered any bytes.
    pub open spec fn delivers(self) -> bool {
        self matches ReadOutcome::Data(bytes) && bytes@.len() > 0
    }

    /// The bytes that the read delivered.
    pub open spec fn chunk(self) -> Seq<u8> {
        match self {
            ReadOutcome::Data(bytes) => bytes@,
            _ => Seq::empty(),
        }
    }
}

/// The number of reads that are made before the stream ends or fails: the
/// reads in front of the first one that delivers nothing.
pub open spec fn delivered(reads: Seq<ReadOutcome>) -> nat
    decreases reads.len(),
{
    if reads.len() > 0 && reads.first().delivers() {
        1 + delivered(reads.drop_first())
    } else {
        0
    }
}

/// The chunks that the stream delivers, in their order.
pub open spec fn chunks(reads: Seq<ReadOutcome>) -> Seq<Seq<u8>> {
    Seq::new(delivered(reads), |i: int| reads[i].chunk())
}

/// The content of the stream: its chunks joined.
pub open spec fn content(reads: Seq<ReadOutcome>) -> Seq<u8> {
    chunks(reads).flatten()
}

/// What counting the stream comes to. The read behind the delivered chunks
/// decides: if it failed, its cause is all that is left; if it reported the
/// end, or if the record stops there, the chunks are the whole stream.
pub open spec fn outcome(reads: Seq<ReadOutcome>) -> Result<Progress, ReadError> {
    let end = delivered(reads) as int;
    if end < reads.len() {
        match reads[end] {
            ReadOutcome::Failed(cause) => Err(ReadError { cause }),
            _ => Ok(Progress::of(chunks(reads))),
        }
    } else {
        Ok(Progress::of(chunks(reads)))
    }
}

/// The first `end` reads deliver, and the read behind them does not, exactly
/// when `end` is the number of reads delivered.
pub proof fn lemma_delivered(reads: Seq<ReadOutcome>, end: int)
    requires
        0 <= end <= reads.len(),
        forall|i: int| 0 <= i < end ==> (#[trigger] reads[i]).delivers(),
        end < reads.len() ==> !reads[end].delivers(),
    ensures
        delivered(reads) == end,
    decreases reads.len(),
{
    if end > 0 {
        let rest = reads.drop_first();
        assert forall|i: int| 0 <= i < end - 1 implies (#[trigger] rest[i]).delivers() by {
            assert(rest[i] == reads[i + 1]);
        }
        lemma_delivered(rest, end - 1);
    }
}

/// Counts the stream whose reads went as `reads` records, one after the
/// other. A record that stops without an end or a failure is a stream that
/// ends there.
///
/// The result is `Ok` with the counts of the whole stream unless a read
/// failed before the stream ended; then it is that read's error, and the
/// chunks counted before it are dropped. What the content holds never
/// makes the count fail.
pub fn count_buffered(reads: &[ReadOutcome]) -> (result: Result<Tally, ReadError>)
    ensures
        match outcome(reads@) {
            Ok(progress) => result matches Ok(tally) && tally.reports(progress),
            Err(error) => result == Err::<Tally, ReadError>(error),
        },
        result matches Ok(tally) ==> {
            &&& tally.bytes == content(reads@).len()
            &&& tally.lines == newline_count(content(reads@))
            &&& tally.words == closed_words(content(reads@))
            &&& tally.chars == decoded_chars(chunks(reads@))
            &&& all_valid_text(chunks(reads@)) ==> tally.chars == text_chars(chunks(reads@))
        },
{
    let mut state = CounterState::new();
    let idle: Vec<u8> = Vec::new();
    let mut i: usize = 0;
    while i < reads.len()
        invariant
            i <= reads.len(),
            forall|j: int| 0 <= j < i ==> (#[trigger] reads@[j]).delivers(),
            state@ == Progress::of(Seq::new(i as nat, |j: int| reads@[j].chunk())),
            state@.bytes <= i * usize::MAX,
            state@.chars <= i * usize::MAX,
            all_valid_text(Seq::new(i as nat, |j: int| reads@[j].chunk())) ==> state@.chars
                == text_chars(Seq::new(i as nat, |j: int| reads@[j].chunk())),
        decreases reads.len() - i,
    {
        let ghost before = Seq::new(i as nat, |j: int| reads@[j].chunk());
        let ghost after = Seq::new((i + 1) as nat, |j: int| reads@[j].chunk());
        proof {
            assert((i + 1) * usize::MAX <= u128::MAX) by (nonlinear_arith)
                requires
                    i < usize::MAX,
                    usize::MAX <= u64::MAX,
            ;
            assert((i + 1) * usize::MAX == i * usize::MAX + usize::MAX) by (nonlinear_arith);
            assert(after.drop_last() =~= before);
        }
        let (buffer, status) = match &reads[i] {
            ReadOutcome::Data(bytes) => (bytes.as_slice(), ReadStatus::Filled(bytes.len())),
            ReadOutcome::EndOfStream => (idle.as_slice(), ReadStatus::EndOfStream),
            ReadOutcome::Failed(cause) => (idle.as_slice(), ReadStatus::Failed(cause.clone())),
        };
        proof {
            assert(buffer@.take(buffer@.len() as int) =~= buffer@);
        }
        match state.step(buffer, status) {
            Action::ReadAgain => {
                i += 1;
            },
            Action::Finish(tally) => {
                proof {
                    lemma_delivered(reads@, i as int);
                    assert(chunks(reads@) =~= before);
                    law_totals_follow_content(chunks(reads@));
                    law_chars_are_counted_per_chunk(chunks(reads@));
                }
                return Ok(tally);
            },
            Action::Abort(error) => {
                proof {
                    lemma_delivered(reads@, i as int);
                }
                return Err(error);
            },
        }
    }
    proof {
        lemma_delivered(reads@, i as int);
        assert(chunks(reads@) =~= Seq::new(i as nat, |j: int| reads@[j].chunk()));
        law_totals_follow_content(chunks(reads@));
        law_chars_are_counted_per_chunk(chunks(reads@));
    }
    Ok(state.tally())
}

} // verus!
