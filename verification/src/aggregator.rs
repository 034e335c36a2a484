//! The executable aggregator: it tells its driver what to do next and folds
//! each completion into the running sum.

use vstd::prelude::*;
use crate::model::{Action, AggregatorState};
use crate::series::{lemma_sum_push, sum_of, triangular};
use crate::work::{fold_step, AggregateError, Completion, WorkUnit};

verus! {

/// Size of the batch that the server runs.
pub const SERVER_BATCH_SIZE: u64 = 1_000_000;

/// Delay of each unit of that batch, in milliseconds.
pub const SERVER_DELAY_MILLIS: u64 = 100;

/// The server's batch sums to 499,999,500,000, which fits in 64 bits with
/// room to spare.
pub proof fn lemma_server_batch_sum()
    ensures
        triangular(SERVER_BATCH_SIZE) == 499_999_500_000,
        triangular(SERVER_BATCH_SIZE) <= u64::MAX,
{
    assert(1_000_000 * (1_000_000 - 1) == 999_999_000_000int) by (nonlinear_arith);
}

/// Runs one batch of work units from first launch to final sum.
///
/// The aggregator does not schedule or wait itself. Its driver asks for the
/// next action, performs it, and records each completion as it arrives, in
/// whatever order the runtime delivers them.
pub struct Aggregator {
    batch_size: u64,
    delay_millis: u64,
    limit: Option<u64>,
    launched: u64,
    completed: u64,
    accumulator: u64,
    failure: Option<AggregateError>,
    arrivals: Ghost<Seq<u64>>,
}

impl View for Aggregator {
    type V = AggregatorState;

    closed spec fn view(&self) -> AggregatorState {
        AggregatorState {
            batch_size: self.batch_size,
            delay_millis: self.delay_millis,
            limit: self.limit,
            launched: self.launched,
            arrivals: self.arrivals@,
            failure: self.failure,
        }
    }
}

impl Aggregator {
    /// The counters and the accumulator agree with the arrivals so far.
    pub closed spec fn wf(&self) -> bool {
        &&& self.launched <= self.batch_size
        &&& self.completed <= self.launched
        &&& self.completed == self.arrivals@.len()
        &&& self.accumulator == sum_of(self.arrivals@)
        &&& match self.limit {
            Some(max_in_flight) => 1 <= max_in_flight && self.launched - self.completed
                <= max_in_flight,
            None => true,
        }
    }

    /// A well-formed aggregator is in a valid state.
    pub proof fn lemma_wf_is_valid(&self)
        requires
            self.wf(),
        ensures
            self@.valid(),
    {
    }

    /// An aggregator for a batch of `batch_size` units, each of which waits
    /// `delay_millis` milliseconds, with no bound on the number of units in
    /// flight. Nothing is launched yet and the sum is zero.
    pub fn new(batch_size: u64, delay_millis: u64) -> (aggregator: Aggregator)
        ensures
            aggregator.wf(),
            aggregator@ == AggregatorState::initial(batch_size, delay_millis),
    {
        Aggregator {
            batch_size,
            delay_millis,
            limit: None,
            launched: 0,
            completed: 0,
            accumulator: 0,
            failure: None,
            arrivals: Ghost(Seq::empty()),
        }
    }

    /// An aggregator that keeps at most `max_in_flight` units in flight at
    /// once: it asks for the next launch only when a completion has made
    /// room. A bound of zero could never launch anything and is refused.
    pub fn bounded(batch_size: u64, delay_millis: u64, max_in_flight: u64) -> (made: Option<
        Aggregator,
    >)
        ensures
            made.is_some() <==> max_in_flight >= 1,
            made matches Some(aggregator) ==> aggregator.wf() && aggregator@
                == AggregatorState::initial_bounded(batch_size, delay_millis, max_in_flight),
    {
        if max_in_flight == 0 {
            None
        } else {
            Some(
                Aggregator {
                    batch_size,
                    delay_millis,
                    limit: Some(max_in_flight),
                    launched: 0,
                    completed: 0,
                    accumulator: 0,
                    failure: None,
                    arrivals: Ghost(Seq::empty()),
                },
            )
        }
    }

    /// An aggregator for the batch that the server runs.
    pub fn for_server() -> (aggregator: Aggregator)
        ensures
            aggregator.wf(),
            aggregator@ == AggregatorState::initial(SERVER_BATCH_SIZE, SERVER_DELAY_MILLIS),
    {
        Aggregator::new(SERVER_BATCH_SIZE, SERVER_DELAY_MILLIS)
    }

    /// Says what the driver has to do next, and counts a unit as launched
    /// when the answer is to launch it.
    pub fn next_action(&mut self) -> (action: Action)
        requires
            old(self).wf(),
        ensures
            final(self).wf(),
            action == old(self)@.next_action(),
            final(self)@ == old(self)@.after_action(),
    {
        match self.failure {
            Some(error) => Action::Abort(error),
            None => {
                let room = match self.limit {
                    Some(max_in_flight) => self.launched - self.completed < max_in_flight,
                    None => true,
                };
                if self.launched < self.batch_size && room {
                    let unit = WorkUnit { index: self.launched, delay_millis: self.delay_millis };
                    self.launched = self.launched + 1;
                    Action::Launch(unit)
                } else if self.completed < self.batch_size {
                    Action::AwaitCompletion
                } else {
                    Action::Report(self.accumulator)
                }
            },
        }
    }

    /// Records one completion. A yielded value is added to the running sum;
    /// anything else fails the batch, and the first failure stands.
    pub fn record(&mut self, completion: Completion) -> (outcome: Result<(), AggregateError>)
        requires
            old(self).wf(),
        ensures
            final(self).wf(),
            outcome == old(self)@.outcome_of(completion),
            final(self)@ == old(self)@.after_completion(completion),
    {
        if let Some(error) = self.failure {
            return Err(error);
        }
        if self.completed >= self.launched {
            self.failure = Some(AggregateError::NothingInFlight);
            return Err(AggregateError::NothingInFlight);
        }
        match fold_step(self.accumulator, completion) {
            Ok(total) => {
                proof {
                    if let Completion::Yielded(value) = completion {
                        lemma_sum_push(self.arrivals@, value);
                        self.arrivals@ = self.arrivals@.push(value);
                    }
                }
                self.accumulator = total;
                self.completed = self.completed + 1;
                Ok(())
            },
            Err(error) => {
                self.failure = Some(error);
                Err(error)
            },
        }
    }

    /// Number of units in the batch.
    pub fn batch_size(&self) -> (n: u64)
        ensures
            n == self@.batch_size,
    {
        self.batch_size
    }

    /// The most units that may be in flight at once, where there is a bound.
    pub fn limit(&self) -> (limit: Option<u64>)
        ensures
            limit == self@.limit,
    {
        self.limit
    }

    /// Number of units handed out for launch so far.
    pub fn launched(&self) -> (n: u64)
        ensures
            n == self@.launched,
    {
        self.launched
    }

    /// Number of completions accepted so far.
    pub fn completed(&self) -> (n: u64)
        requires
            self.wf(),
        ensures
            n == self@.arrivals.len(),
    {
        self.completed
    }

    /// Sum of the values accepted so far.
    pub fn partial_sum(&self) -> (sum: u64)
        requires
            self.wf(),
        ensures
            sum == self@.accumulated(),
    {
        self.accumulator
    }

    /// The failure that ended the batch, if any.
    pub fn failure(&self) -> (failure: Option<AggregateError>)
        ensures
            failure == self@.failure,
    {
        self.failure
    }
}

} // verus!
