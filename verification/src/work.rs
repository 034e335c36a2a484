//! Work units, what they hand back, and the single fold step that combines
//! one completion with the running sum.

use vstd::prelude::*;

verus! {

/// One independently scheduled computation of a batch: it waits for its
/// delay, then yields its own index.
#[derive(Clone, Copy, Debug, PartialEq, Eq, Structural)]
pub struct WorkUnit {
    /// Ordinal position in the batch, counted from zero.
    pub index: u64,
    /// How long the unit suspends before it yields, in milliseconds.
    pub delay_millis: u64,
}

impl WorkUnit {
    /// The value the unit contributes to the aggregate: its index.
    pub fn result(&self) -> (value: u64)
        ensures
            value == self.index,
    {
        self.index
    }
}

/// What the runtime reports when a unit is done.
#[derive(Clone, Copy, Debug, PartialEq, Eq, Structural)]
pub enum Completion {
    /// The unit ran to its end and produced this value.
    Yielded(u64),
    /// The unit was aborted or panicked and produced nothing.
    Faulted,
}

/// Why a batch has no sum. The aggregator fails fast: the first of these
/// ends the batch, and no partial sum is reported.
#[derive(Clone, Copy, Debug, PartialEq, Eq, Structural)]
pub enum AggregateError {
    /// A unit faulted instead of yielding a value.
    UnitFaulted,
    /// The sum of the values does not fit in 64 bits.
    SumOverflow,
    /// A completion arrived although every launched unit had already completed.
    NothingInFlight,
}

/// The running sum after `completion` is combined with `accum`.
pub open spec fn folded(accum: u64, completion: Completion) -> Result<u64, AggregateError> {
    match completion {
        Completion::Faulted => Err(AggregateError::UnitFaulted),
        Completion::Yielded(value) => if accum + value <= u64::MAX {
            Ok((accum + value) as u64)
        } else {
            Err(AggregateError::SumOverflow)
        },
    }
}

/// Combines one completion with the running sum by addition. A faulted unit
/// is fatal, and so is a sum that leaves the range of `u64`.
pub fn fold_step(accum: u64, completion: Completion) -> (next: Result<u64, AggregateError>)
    ensures
        next == folded(accum, completion),
{
    match completion {
        Completion::Faulted => Err(AggregateError::UnitFaulted),
        Completion::Yielded(value) => match accum.checked_add(value) {
            Some(total) => Ok(total),
            None => Err(AggregateError::SumOverflow),
        },
    }
}

} // verus!
