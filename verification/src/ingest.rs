//! The ingestion feed's batching rule. Lines read from standard input are
//! collected and flushed as one batch — a single corpus append and one
//! re-ranking — once the debounce window has elapsed, or at end of input.
//! Reading the input and keeping time stay with the caller; the decision
//! of when a batch leaves is made here.

use vstd::prelude::*;

verus! {

/// The debounce window in milliseconds.
pub const DEBOUNCE_MS: u64 = 100;

/// The lines read since the last flush.
pub struct Batcher {
    pub pending: Vec<Vec<char>>,
}

impl Batcher {
    pub fn new() -> (r: Self)
        ensures
            r.pending@.len() == 0,
    {
        Batcher { pending: Vec::new() }
    }

    /// Adds one line to the pending batch.
    pub fn push_line(&mut self, line: Vec<char>)
        ensures
            final(self).pending@ == old(self).pending@.push(line),
    {
        self.pending.push(line);
    }

    /// Flushes when the debounce window has elapsed and lines are
    /// pending: hands out the whole batch and starts an empty one.
    /// Otherwise keeps the batch as it is.
    pub fn take_due(&mut self, elapsed_ms: u64) -> (r: Option<Vec<Vec<char>>>)
        ensures
            elapsed_ms >= DEBOUNCE_MS && old(self).pending@.len() > 0 ==> {
                &&& r matches Some(batch) && batch == old(self).pending
                &&& final(self).pending@.len() == 0
            },
            elapsed_ms < DEBOUNCE_MS || old(self).pending@.len() == 0 ==> {
                &&& r is None
                &&& final(self).pending == old(self).pending
            },
    {
        if elapsed_ms >= DEBOUNCE_MS && self.pending.len() > 0 {
            self.take_all()
        } else {
            None
        }
    }

    /// Flushes whatever is pending at end of input; nothing if the batch
    /// is empty.
    pub fn finish(&mut self) -> (r: Option<Vec<Vec<char>>>)
        ensures
            old(self).pending@.len() > 0 ==> {
                &&& r matches Some(batch) && batch == old(self).pending
                &&& final(self).pending@.len() == 0
            },
            old(self).pending@.len() == 0 ==> {
                &&& r is None
                &&& final(self).pending == old(self).pending
            },
    {
        if self.pending.len() > 0 {
            self.take_all()
        } else {
            None
        }
    }

    /// Hands out the whole pending batch.
    fn take_all(&mut self) -> (r: Option<Vec<Vec<char>>>)
        ensures
            r matches Some(batch) && batch == old(self).pending,
            final(self).pending@.len() == 0,
    {
        let mut batch: Vec<Vec<char>> = Vec::new();
        core::mem::swap(&mut batch, &mut self.pending);
        Some(batch)
    }
}

} // verus!
