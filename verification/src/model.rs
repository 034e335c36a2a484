//! The aggregator as a state machine over mathematical values: its states,
//! the action each state calls for, the effect of each completion, and the
//! laws that hold of every run.

use vstd::prelude::*;
use crate::series::{indices, lemma_arrival_order_is_distinct_indices,
    lemma_distinct_indices_bounded, lemma_sum_nonnegative, lemma_sum_of_any_arrival_order,
    lemma_sum_order_independent, lemma_sum_push, sum_of, triangular};
use crate::work::{folded, AggregateError, Completion, WorkUnit};

verus! {

/// What the driver of a batch has to do next.
#[derive(Clone, Copy, Debug, PartialEq, Eq, Structural)]
pub enum Action {
    /// Schedule this unit; it must not block any other unit while it waits.
    Launch(WorkUnit),
    /// Every unit is launched: wait for any one of them and record what it hands back.
    AwaitCompletion,
    /// Every unit has completed: this is the sum of what they yielded.
    Report(u64),
    /// The batch has failed for this reason; there is no sum.
    Abort(AggregateError),
}

/// One step of a run, as the aggregator sees it.
pub enum Step {
    /// The driver asked for the next action.
    Asked,
    /// The driver recorded this completion.
    Recorded(Completion),
}

/// The state of an aggregation, as contracts see it.
pub struct AggregatorState {
    /// Number of units in the batch.
    pub batch_size: u64,
    /// Delay handed to every unit, in milliseconds.
    pub delay_millis: u64,
    /// The most units that may be in flight at once, where there is a bound.
    pub limit: Option<u64>,
    /// Number of units handed out for launch so far; they are the indices below it.
    pub launched: u64,
    /// The values yielded so far, in the order their completions arrived.
    pub arrivals: Seq<u64>,
    /// The first failure, once there is one.
    pub failure: Option<AggregateError>,
}

impl AggregatorState {
    /// The state before anything is launched, with no bound on the number
    /// of units in flight.
    pub open spec fn initial(batch_size: u64, delay_millis: u64) -> AggregatorState {
        AggregatorState {
            batch_size,
            delay_millis,
            limit: None,
            launched: 0,
            arrivals: Seq::empty(),
            failure: None,
        }
    }

    /// The state before anything is launched, with at most `max_in_flight`
    /// units in flight at once.
    pub open spec fn initial_bounded(
        batch_size: u64,
        delay_millis: u64,
        max_in_flight: u64,
    ) -> AggregatorState {
        AggregatorState {
            limit: Some(max_in_flight),
            ..AggregatorState::initial(batch_size, delay_millis)
        }
    }

    /// What holds of every state that a run can reach: no more units are
    /// launched than the batch has, each launched unit has completed at most
    /// once, the running sum fits in 64 bits, and a bound on the units in
    /// flight admits at least one unit and is kept.
    pub open spec fn valid(self) -> bool {
        &&& self.launched <= self.batch_size
        &&& self.arrivals.len() <= self.launched
        &&& sum_of(self.arrivals) <= u64::MAX
        &&& match self.limit {
            Some(max_in_flight) => 1 <= max_in_flight && self.in_flight() <= max_in_flight,
            None => true,
        }
    }

    /// Whether another unit may be launched now: one remains, and a bound on
    /// the units in flight leaves room for it.
    pub open spec fn may_launch(self) -> bool {
        &&& self.launched < self.batch_size
        &&& match self.limit {
            Some(max_in_flight) => self.in_flight() < max_in_flight,
            None => true,
        }
    }

    /// Number of units launched and not yet completed.
    pub open spec fn in_flight(self) -> int {
        self.launched - self.arrivals.len()
    }

    /// The running sum.
    pub open spec fn accumulated(self) -> int {
        sum_of(self.arrivals)
    }

    /// The action this state calls for: after a failure, abort; while a unit
    /// may be launched, launch the next index; while completions are
    /// outstanding, await one; and only then report the sum.
    pub open spec fn next_action(self) -> Action {
        if let Some(error) = self.failure {
            Action::Abort(error)
        } else if self.may_launch() {
            Action::Launch(WorkUnit { index: self.launched, delay_millis: self.delay_millis })
        } else if self.arrivals.len() < self.batch_size {
            Action::AwaitCompletion
        } else {
            Action::Report(self.accumulated() as u64)
        }
    }

    /// The state once the action has been handed out: a launch counts the
    /// unit as launched, every other action leaves the state as it is.
    pub open spec fn after_action(self) -> AggregatorState {
        if self.failure.is_none() && self.may_launch() {
            AggregatorState { launched: (self.launched + 1) as u64, ..self }
        } else {
            self
        }
    }

    /// Whether `completion` is accepted, and if not, why. An earlier failure
    /// stands; a completion that no launched unit can account for is refused;
    /// otherwise the fold step decides.
    pub open spec fn outcome_of(self, completion: Completion) -> Result<(), AggregateError> {
        if let Some(error) = self.failure {
            Err(error)
        } else if self.in_flight() <= 0 {
            Err(AggregateError::NothingInFlight)
        } else {
            match folded(self.accumulated() as u64, completion) {
                Ok(_) => Ok(()),
                Err(error) => Err(error),
            }
        }
    }

    /// The state after `completion` has been recorded: an accepted value joins
    /// the arrivals, and the first refusal becomes the batch's failure.
    pub open spec fn after_completion(self, completion: Completion) -> AggregatorState {
        match self.outcome_of(completion) {
            Err(error) => AggregatorState { failure: Some(error), ..self },
            Ok(_) => match completion {
                Completion::Yielded(value) => AggregatorState {
                    arrivals: self.arrivals.push(value),
                    ..self
                },
                Completion::Faulted => self,
            },
        }
    }

    /// The state after one step of a run.
    pub open spec fn after_step(self, step: Step) -> AggregatorState {
        match step {
            Step::Asked => self.after_action(),
            Step::Recorded(completion) => self.after_completion(completion),
        }
    }

    /// The state after a run of steps, taken in order.
    pub open spec fn after_steps(self, steps: Seq<Step>) -> AggregatorState
        decreases steps.len(),
    {
        if steps.len() == 0 {
            self
        } else {
            self.after_steps(steps.drop_last()).after_step(steps.last())
        }
    }

    /// The state after the next `count` actions have been handed out.
    pub open spec fn after_actions(self, count: nat) -> AggregatorState
        decreases count,
    {
        if count == 0 {
            self
        } else {
            self.after_actions((count - 1) as nat).after_action()
        }
    }

    /// The state after units have yielded `values`, recorded in that order.
    pub open spec fn after_arrivals(self, values: Seq<u64>) -> AggregatorState
        decreases values.len(),
    {
        if values.len() == 0 {
            self
        } else {
            self.after_arrivals(values.drop_last()).after_completion(
                Completion::Yielded(values.last()),
            )
        }
    }

    /// Validity is an invariant: the initial states have it, and handing out
    /// an action or recording a completion keeps it. In particular a bound
    /// on the units in flight is never exceeded.
    pub proof fn lemma_valid_is_invariant(self, completion: Completion, max_in_flight: u64)
        requires
            self.valid(),
        ensures
            AggregatorState::initial(self.batch_size, self.delay_millis).valid(),
            max_in_flight >= 1 ==> AggregatorState::initial_bounded(
                self.batch_size,
                self.delay_millis,
                max_in_flight,
            ).valid(),
            self.after_action().valid(),
            self.after_completion(completion).valid(),
    {
        if let Completion::Yielded(value) = completion {
            lemma_sum_push(self.arrivals, value);
        }
        lemma_sum_nonnegative(self.arrivals);
    }

    /// A run never stalls: whenever the driver is told to await a
    /// completion, at least one unit is in flight to deliver it.
    pub proof fn lemma_await_has_unit_in_flight(self)
        requires
            self.valid(),
            self.next_action() == Action::AwaitCompletion,
        ensures
            self.in_flight() > 0,
    {
    }

    /// The sum is reported only behind a full barrier: every unit of the
    /// batch has been launched, every one of them has completed exactly once,
    /// nothing has failed, and the value reported is the sum of all arrivals.
    pub proof fn lemma_report_waits_for_all(self, sum: u64)
        requires
            self.valid(),
            self.next_action() == Action::Report(sum),
        ensures
            self.failure.is_none(),
            self.launched == self.batch_size,
            self.arrivals.len() == self.batch_size,
            self.in_flight() == 0,
            sum == sum_of(self.arrivals),
    {
        lemma_sum_nonnegative(self.arrivals);
    }

    /// When each unit of the batch yields its own index, the reported sum is
    /// `n * (n - 1) / 2` for a batch of `n`, whatever the order of arrival
    /// and whatever the delay.
    pub proof fn lemma_report_is_closed_form(self, sum: u64)
        requires
            self.valid(),
            self.next_action() == Action::Report(sum),
            self.arrivals.to_multiset() == indices(self.batch_size).to_multiset(),
        ensures
            sum == triangular(self.batch_size),
    {
        self.lemma_report_waits_for_all(sum);
        lemma_sum_of_any_arrival_order(self.arrivals, self.batch_size);
    }

    /// The reported sum does not depend on the order of arrival: two runs in
    /// which the same values arrived, each as often as in the other, report
    /// the same sum.
    pub proof fn lemma_report_is_order_independent(
        self,
        other: AggregatorState,
        sum: u64,
        other_sum: u64,
    )
        requires
            self.valid(),
            other.valid(),
            self.next_action() == Action::Report(sum),
            other.next_action() == Action::Report(other_sum),
            self.arrivals.to_multiset() == other.arrivals.to_multiset(),
        ensures
            sum == other_sum,
    {
        self.lemma_report_waits_for_all(sum);
        other.lemma_report_waits_for_all(other_sum);
        lemma_sum_order_independent(self.arrivals, other.arrivals);
    }

    /// A fault is never passed over: recording a faulted unit is refused, and
    /// from then on the batch calls for an abort, not for a report.
    pub proof fn lemma_fault_is_reported(self)
        requires
            self.valid(),
            self.failure.is_none(),
            self.in_flight() > 0,
        ensures
            self.outcome_of(Completion::Faulted) == Err::<(), _>(AggregateError::UnitFaulted),
            self.after_completion(Completion::Faulted).next_action() == Action::Abort(
                AggregateError::UnitFaulted,
            ),
    {
    }

    /// A failure is final: no later action or completion clears or replaces
    /// it, and every later completion is refused with it.
    pub proof fn lemma_failure_is_final(self, error: AggregateError, completion: Completion)
        requires
            self.failure == Some(error),
        ensures
            self.next_action() == Action::Abort(error),
            self.after_action() == self,
            self.outcome_of(completion) == Err::<(), _>(error),
            self.after_completion(completion) == self,
    {
    }

    /// Honest results never overflow a batch whose full sum fits in 64 bits:
    /// while the values that arrive are distinct indices of the batch, each
    /// one is accepted.
    pub proof fn lemma_honest_result_accepted(self, value: u64)
        requires
            self.valid(),
            self.failure.is_none(),
            self.in_flight() > 0,
            triangular(self.batch_size) <= u64::MAX,
            self.arrivals.push(value).no_duplicates(),
            forall|i: int| 0 <= i < self.arrivals.len() ==> self.arrivals[i] < self.batch_size,
            value < self.batch_size,
        ensures
            self.outcome_of(Completion::Yielded(value)).is_ok(),
            self.after_completion(Completion::Yielded(value)).arrivals == self.arrivals.push(value),
    {
        lemma_sum_push(self.arrivals, value);
        lemma_sum_nonnegative(self.arrivals);
        lemma_distinct_indices_bounded(self.arrivals.push(value), self.batch_size);
    }

    /// While units remain, nothing has failed and nothing bounds the units
    /// in flight, each action launches the next index: `count` actions raise
    /// the number launched by `count` and change nothing else.
    pub proof fn lemma_actions_launch_in_turn(self, count: nat)
        requires
            self.failure.is_none(),
            self.limit.is_none(),
            self.launched + count <= self.batch_size,
        ensures
            self.after_actions(count) == (AggregatorState {
                launched: (self.launched + count) as u64,
                ..self
            }),
        decreases count,
    {
        if count > 0 {
            self.lemma_actions_launch_in_turn((count - 1) as nat);
        }
    }

    /// Once the whole batch is launched, distinct indices are accepted one
    /// after the other, in any order, as long as their full sum fits in 64
    /// bits: they become the arrivals and nothing else changes.
    pub proof fn lemma_distinct_indices_all_accepted(self, values: Seq<u64>)
        requires
            self.valid(),
            self.failure.is_none(),
            self.launched == self.batch_size,
            self.arrivals.len() == 0,
            triangular(self.batch_size) <= u64::MAX,
            values.len() <= self.batch_size,
            values.no_duplicates(),
            forall|i: int| 0 <= i < values.len() ==> values[i] < self.batch_size,
        ensures
            self.after_arrivals(values) == (AggregatorState { arrivals: values, ..self }),
        decreases values.len(),
    {
        if values.len() == 0 {
            assert(self.arrivals =~= values);
        } else {
            let earlier = values.drop_last();
            let before = AggregatorState { arrivals: earlier, ..self };
            self.lemma_distinct_indices_all_accepted(earlier);
            lemma_distinct_indices_bounded(earlier, self.batch_size);
            assert(earlier.push(values.last()) =~= values);
            before.lemma_honest_result_accepted(values.last());
        }
    }

    /// A whole run: a batch of `n` units whose full sum fits in 64 bits is
    /// launched at once, each unit yields its own index, and the results
    /// arrive in any order. The aggregator then reports `n * (n - 1) / 2`, for every
    /// `n`, every delay and every order of arrival.
    pub proof fn lemma_run_reports_closed_form(batch_size: u64, delay_millis: u64, arrivals: Seq<u64>)
        requires
            triangular(batch_size) <= u64::MAX,
            arrivals.to_multiset() == indices(batch_size).to_multiset(),
        ensures
            AggregatorState::initial(batch_size, delay_millis).after_actions(
                batch_size as nat,
            ).after_arrivals(arrivals).next_action() == Action::Report(
                triangular(batch_size) as u64,
            ),
    {
        let start = AggregatorState::initial(batch_size, delay_millis);
        let launched = start.after_actions(batch_size as nat);
        start.lemma_actions_launch_in_turn(batch_size as nat);
        lemma_arrival_order_is_distinct_indices(arrivals, batch_size);
        launched.lemma_distinct_indices_all_accepted(arrivals);
        lemma_sum_of_any_arrival_order(arrivals, batch_size);
    }

    /// After a failure no run ends in a report: whatever steps follow, in
    /// whatever order, the state stays as it is and calls for an abort with
    /// the first failure.
    pub proof fn lemma_failed_run_never_reports(self, error: AggregateError, steps: Seq<Step>)
        requires
            self.failure == Some(error),
        ensures
            self.after_steps(steps) == self,
            self.after_steps(steps).next_action() == Action::Abort(error),
        decreases steps.len(),
    {
        if steps.len() > 0 {
            self.lemma_failed_run_never_reports(error, steps.drop_last());
        }
    }

    /// Every state that a run reaches is valid, however launches and
    /// completions interleave, and the run changes neither the batch size nor
    /// the delay nor the bound on the units in flight.
    pub proof fn lemma_run_stays_valid(self, steps: Seq<Step>)
        requires
            self.valid(),
        ensures
            self.after_steps(steps).valid(),
            self.after_steps(steps).batch_size == self.batch_size,
            self.after_steps(steps).delay_millis == self.delay_millis,
            self.after_steps(steps).limit == self.limit,
        decreases steps.len(),
    {
        if steps.len() > 0 {
            let before = self.after_steps(steps.drop_last());
            self.lemma_run_stays_valid(steps.drop_last());
            match steps.last() {
                Step::Asked => {
                    before.lemma_valid_is_invariant(Completion::Faulted, 1);
                },
                Step::Recorded(completion) => {
                    before.lemma_valid_is_invariant(completion, 1);
                },
            }
        }
    }

    /// Any run, bounded or not, that ends in a report after each unit of the
    /// batch has yielded its own index reports `n * (n - 1) / 2` for a batch
    /// of `n`: the result depends neither on the delay, nor on the bound, nor
    /// on how launches and completions interleaved.
    pub proof fn lemma_any_run_reports_closed_form(start: AggregatorState, steps: Seq<Step>, sum: u64)
        requires
            start.valid(),
            start.after_steps(steps).next_action() == Action::Report(sum),
            start.after_steps(steps).arrivals.to_multiset() == indices(
                start.batch_size,
            ).to_multiset(),
        ensures
            sum == triangular(start.batch_size),
    {
        start.lemma_run_stays_valid(steps);
        start.after_steps(steps).lemma_report_is_closed_form(sum);
    }

    /// An empty batch is done before anything is launched or awaited: its
    /// first action is to report zero.
    pub proof fn lemma_empty_batch_reports_at_once(delay_millis: u64)
        ensures
            AggregatorState::initial(0, delay_millis).next_action() == Action::Report(0),
    {
    }

    /// A batch of one launches index zero, then waits for it, and reports
    /// zero only once it has arrived.
    pub proof fn lemma_single_unit_run(delay_millis: u64)
        ensures
            ({
                let start = AggregatorState::initial(1, delay_millis);
                let waiting = start.after_action();
                let done = waiting.after_completion(Completion::Yielded(0));
                &&& start.next_action() == Action::Launch(WorkUnit { index: 0, delay_millis })
                &&& waiting.next_action() == Action::AwaitCompletion
                &&& done.next_action() == Action::Report(0)
            }),
    {
        let waiting = AggregatorState::initial(1, delay_millis).after_action();
        lemma_sum_push(waiting.arrivals, 0);
    }
}

} // verus!
