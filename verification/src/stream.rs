//! Reading a stream chunk by chunk: what a read can report, and what the
//! counter does with each report.

use crate::counter::{CounterState, Tally};
use crate::decode::decoding_known;
use vstd::prelude::*;

verus! {

/// The capacity of the buffer that a stream is read into. One buffer of this
/// size is filled again and again, so the memory in use does not grow with
/// the stream.
pub const BUFFER_CAPACITY: usize = 1024;

/// A stream could not be read. The count of that stream is lost with it.
#[derive(Clone, Debug, PartialEq, Eq)]
pub struct ReadError {
    /// What the stream reported.
    pub cause: String,
}

/// What one read into the buffer reported.
#[derive(Clone, Debug, PartialEq, Eq)]
pub enum ReadStatus {
    /// The read wrote this many bytes to the front of the buffer.
    Filled(usize),
    /// The stream has ended.
    EndOfStream,
    /// The read failed, for the given cause.
    Failed(String),
}

impl ReadStatus {
    /// Whether the read delivered any bytes. A read that fills nothing marks
    /// the end of the stream.
    pub open spec fn delivers(self) -> bool {
        self matches ReadStatus::Filled(filled) && filled > 0
    }

    /// The number of bytes that the read delivered.
    pub open spec fn filled(self) -> nat {
        match self {
            ReadStatus::Filled(filled) => filled as nat,
            _ => 0,
        }
    }
}

/// What is to be done after a read.
#[derive(Clone, Debug, PartialEq, Eq)]
pub enum Action {
    /// The chunk has been counted: fill the buffer again.
    ReadAgain,
    /// The stream has ended with these counts.
    Finish(Tally),
    /// The stream failed: there is no count to report.
    Abort(ReadError),
}

impl CounterState {
    /// One turn of the counting loop: takes what a read into `buffer`
    /// reported and decides how to go on.
    ///
    /// A read that filled `n > 0` bytes has the first `n` bytes of the buffer
    /// counted, and no byte behind them: those are left from earlier reads.
    /// A read that filled nothing, or that met the end of the stream, ends
    /// the count with the totals as they stand. A failed read ends it with
    /// the error alone.
    ///
    /// A read cannot fill more than the buffer holds, and the totals must
    /// have room for the chunk.
    pub fn step(&mut self, buffer: &[u8], status: ReadStatus) -> (action: Action)
        requires
            status.delivers() ==> {
                &&& status.filled() <= buffer@.len()
                &&& old(self)@.has_room(status.filled())
            },
        ensures
            status.delivers() ==> {
                &&& action is ReadAgain
                &&& final(self)@ == old(self)@.absorb(buffer@.take(status.filled() as int))
                &&& decoding_known(buffer@.take(status.filled() as int))
            },
            !status.delivers() ==> final(self)@ == old(self)@,
            (status is EndOfStream || status == ReadStatus::Filled(0)) ==> {
                &&& action matches Action::Finish(tally)
                &&& tally.reports(old(self)@)
            },
            status matches ReadStatus::Failed(cause) ==> action == Action::Abort(
                ReadError { cause },
            ),
    {
        match status {
            ReadStatus::Filled(filled) => {
                if filled == 0 {
                    Action::Finish(self.tally())
                } else {
                    let chunk = vstd::slice::slice_subrange(buffer, 0, filled);
                    self.update(chunk);
                    Action::ReadAgain
                }
            },
            ReadStatus::EndOfStream => Action::Finish(self.tally()),
            ReadStatus::Failed(cause) => Action::Abort(ReadError { cause }),
        }
    }
}

} // verus!
