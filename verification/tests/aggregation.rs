use gink::aggregator::{Aggregator, SERVER_BATCH_SIZE, SERVER_DELAY_MILLIS};
use gink::model::Action;
use gink::work::{fold_step, AggregateError, Completion, WorkUnit};

/// Launches every unit the aggregator asks for and returns them in launch order.
fn launch_all(aggregator: &mut Aggregator) -> Vec<WorkUnit> {
    let mut units = Vec::new();
    while let Action::Launch(unit) = aggregator.next_action() {
        units.push(unit);
    }
    units
}

/// Drives a whole batch, delivering the units' results in the given order of
/// positions in the launch list.
fn run_in_order(batch_size: u64, delay_millis: u64, order: &[usize]) -> Action {
    let mut aggregator = Aggregator::new(batch_size, delay_millis);
    let units = launch_all(&mut aggregator);
    assert_eq!(units.len() as u64, batch_size);
    for &position in order {
        assert_eq!(aggregator.next_action(), Action::AwaitCompletion);
        assert_eq!(aggregator.record(Completion::Yielded(units[position].result())), Ok(()));
    }
    aggregator.next_action()
}

#[test]
fn silly_test() {
    assert_eq!(2, 2);
}

#[test]
fn empty_batch_reports_zero_at_once() {
    let mut aggregator = Aggregator::new(0, 100);
    assert_eq!(aggregator.next_action(), Action::Report(0));
    assert_eq!(aggregator.launched(), 0);
    assert_eq!(aggregator.completed(), 0);
    assert_eq!(aggregator.failure(), None);
}

#[test]
fn single_unit_reports_zero_after_its_completion() {
    let mut aggregator = Aggregator::new(1, 250);
    assert_eq!(
        aggregator.next_action(),
        Action::Launch(WorkUnit { index: 0, delay_millis: 250 })
    );
    assert_eq!(aggregator.next_action(), Action::AwaitCompletion);
    assert_eq!(aggregator.next_action(), Action::AwaitCompletion);
    assert_eq!(aggregator.record(Completion::Yielded(0)), Ok(()));
    assert_eq!(aggregator.next_action(), Action::Report(0));
}

#[test]
fn units_are_launched_by_index_with_the_batch_delay() {
    let mut aggregator = Aggregator::new(4, 7);
    let units = launch_all(&mut aggregator);
    assert_eq!(
        units,
        vec![
            WorkUnit { index: 0, delay_millis: 7 },
            WorkUnit { index: 1, delay_millis: 7 },
            WorkUnit { index: 2, delay_millis: 7 },
            WorkUnit { index: 3, delay_millis: 7 },
        ]
    );
    assert_eq!(aggregator.launched(), 4);
    assert_eq!(aggregator.batch_size(), 4);
}

#[test]
fn work_unit_yields_its_index() {
    assert_eq!(WorkUnit { index: 41, delay_millis: 100 }.result(), 41);
    assert_eq!(WorkUnit { index: 0, delay_millis: 0 }.result(), 0);
}

#[test]
fn sum_is_closed_form_for_small_batches() {
    for n in 0..50u64 {
        let order: Vec<usize> = (0..n as usize).collect();
        assert_eq!(run_in_order(n, 0, &order), Action::Report(n * n.saturating_sub(1) / 2));
    }
}

#[test]
fn sum_of_ten_units_is_forty_five() {
    let order: Vec<usize> = (0..10).collect();
    assert_eq!(run_in_order(10, 100, &order), Action::Report(45));
}

#[test]
fn sum_does_not_depend_on_arrival_order() {
    let forward = run_in_order(6, 100, &[0, 1, 2, 3, 4, 5]);
    let backward = run_in_order(6, 100, &[5, 4, 3, 2, 1, 0]);
    let shuffled = run_in_order(6, 100, &[3, 0, 5, 1, 4, 2]);
    assert_eq!(forward, Action::Report(15));
    assert_eq!(backward, Action::Report(15));
    assert_eq!(shuffled, Action::Report(15));
}

#[test]
fn sum_does_not_depend_on_delay() {
    assert_eq!(run_in_order(5, 0, &[4, 2, 0, 1, 3]), Action::Report(10));
    assert_eq!(run_in_order(5, u64::MAX, &[4, 2, 0, 1, 3]), Action::Report(10));
}

#[test]
fn server_batch_sums_to_its_closed_form() {
    assert_eq!(SERVER_BATCH_SIZE, 1_000_000);
    assert_eq!(SERVER_DELAY_MILLIS, 100);
    let mut aggregator = Aggregator::for_server();
    let units = launch_all(&mut aggregator);
    assert_eq!(units.len(), 1_000_000);
    assert_eq!(units[999_999], WorkUnit { index: 999_999, delay_millis: 100 });
    for unit in units.iter().rev() {
        assert_eq!(aggregator.record(Completion::Yielded(unit.result())), Ok(()));
    }
    assert_eq!(aggregator.next_action(), Action::Report(499_999_500_000));
}

#[test]
fn no_report_before_every_unit_has_completed() {
    let mut aggregator = Aggregator::new(3, 100);
    launch_all(&mut aggregator);
    assert_eq!(aggregator.record(Completion::Yielded(2)), Ok(()));
    assert_eq!(aggregator.next_action(), Action::AwaitCompletion);
    assert_eq!(aggregator.record(Completion::Yielded(0)), Ok(()));
    assert_eq!(aggregator.next_action(), Action::AwaitCompletion);
    assert_eq!(aggregator.partial_sum(), 2);
    assert_eq!(aggregator.completed(), 2);
    assert_eq!(aggregator.record(Completion::Yielded(1)), Ok(()));
    assert_eq!(aggregator.next_action(), Action::Report(3));
    assert_eq!(aggregator.next_action(), Action::Report(3));
}

#[test]
fn completion_may_arrive_while_units_are_still_being_launched() {
    let mut aggregator = Aggregator::new(2, 100);
    assert_eq!(
        aggregator.next_action(),
        Action::Launch(WorkUnit { index: 0, delay_millis: 100 })
    );
    assert_eq!(aggregator.record(Completion::Yielded(0)), Ok(()));
    assert_eq!(
        aggregator.next_action(),
        Action::Launch(WorkUnit { index: 1, delay_millis: 100 })
    );
    assert_eq!(aggregator.next_action(), Action::AwaitCompletion);
    assert_eq!(aggregator.record(Completion::Yielded(1)), Ok(()));
    assert_eq!(aggregator.next_action(), Action::Report(1));
}

#[test]
fn fault_is_reported_and_no_partial_sum_is() {
    let mut aggregator = Aggregator::new(3, 100);
    launch_all(&mut aggregator);
    assert_eq!(aggregator.record(Completion::Yielded(1)), Ok(()));
    assert_eq!(
        aggregator.record(Completion::Faulted),
        Err(AggregateError::UnitFaulted)
    );
    assert_eq!(aggregator.failure(), Some(AggregateError::UnitFaulted));
    assert_eq!(
        aggregator.next_action(),
        Action::Abort(AggregateError::UnitFaulted)
    );
}

#[test]
fn first_failure_stands() {
    let mut aggregator = Aggregator::new(3, 100);
    launch_all(&mut aggregator);
    assert_eq!(
        aggregator.record(Completion::Faulted),
        Err(AggregateError::UnitFaulted)
    );
    assert_eq!(
        aggregator.record(Completion::Yielded(0)),
        Err(AggregateError::UnitFaulted)
    );
    assert_eq!(
        aggregator.record(Completion::Yielded(u64::MAX)),
        Err(AggregateError::UnitFaulted)
    );
    assert_eq!(aggregator.completed(), 0);
    assert_eq!(aggregator.partial_sum(), 0);
    assert_eq!(
        aggregator.next_action(),
        Action::Abort(AggregateError::UnitFaulted)
    );
}

#[test]
fn fault_of_the_only_unit_aborts() {
    let mut aggregator = Aggregator::new(1, 100);
    launch_all(&mut aggregator);
    assert_eq!(
        aggregator.record(Completion::Faulted),
        Err(AggregateError::UnitFaulted)
    );
    assert_eq!(
        aggregator.next_action(),
        Action::Abort(AggregateError::UnitFaulted)
    );
}

#[test]
fn completion_with_nothing_in_flight_is_refused() {
    let mut aggregator = Aggregator::new(2, 100);
    assert_eq!(
        aggregator.record(Completion::Yielded(0)),
        Err(AggregateError::NothingInFlight)
    );
    assert_eq!(
        aggregator.next_action(),
        Action::Abort(AggregateError::NothingInFlight)
    );

    let mut done = Aggregator::new(1, 100);
    launch_all(&mut done);
    assert_eq!(done.record(Completion::Yielded(0)), Ok(()));
    assert_eq!(
        done.record(Completion::Yielded(0)),
        Err(AggregateError::NothingInFlight)
    );
    assert_eq!(
        done.next_action(),
        Action::Abort(AggregateError::NothingInFlight)
    );
}

#[test]
fn overflowing_sum_is_refused() {
    let mut aggregator = Aggregator::new(2, 100);
    launch_all(&mut aggregator);
    assert_eq!(aggregator.record(Completion::Yielded(u64::MAX)), Ok(()));
    assert_eq!(aggregator.partial_sum(), u64::MAX);
    assert_eq!(
        aggregator.record(Completion::Yielded(1)),
        Err(AggregateError::SumOverflow)
    );
    assert_eq!(
        aggregator.next_action(),
        Action::Abort(AggregateError::SumOverflow)
    );
}

#[test]
fn largest_sum_that_fits_is_reported() {
    let mut aggregator = Aggregator::new(2, 100);
    launch_all(&mut aggregator);
    assert_eq!(aggregator.record(Completion::Yielded(u64::MAX - 1)), Ok(()));
    assert_eq!(aggregator.record(Completion::Yielded(1)), Ok(()));
    assert_eq!(aggregator.next_action(), Action::Report(u64::MAX));
}

#[test]
fn fold_step_adds_a_yielded_value() {
    assert_eq!(fold_step(0, Completion::Yielded(0)), Ok(0));
    assert_eq!(fold_step(40, Completion::Yielded(2)), Ok(42));
    assert_eq!(fold_step(u64::MAX - 5, Completion::Yielded(5)), Ok(u64::MAX));
}

#[test]
fn fold_step_fails_on_fault_and_overflow() {
    assert_eq!(fold_step(40, Completion::Faulted), Err(AggregateError::UnitFaulted));
    assert_eq!(
        fold_step(u64::MAX, Completion::Yielded(1)),
        Err(AggregateError::SumOverflow)
    );
    assert_eq!(
        fold_step(u64::MAX, Completion::Faulted),
        Err(AggregateError::UnitFaulted)
    );
}

#[test]
fn bound_of_zero_is_refused() {
    assert!(Aggregator::bounded(3, 100, 0).is_none());
    assert!(Aggregator::bounded(0, 100, 0).is_none());
    assert!(Aggregator::bounded(3, 100, 1).is_some());
}

#[test]
fn unbounded_aggregator_has_no_limit() {
    assert_eq!(Aggregator::new(3, 100).limit(), None);
    let bounded = Aggregator::bounded(3, 100, 2).expect("a bound of two is accepted");
    assert_eq!(bounded.limit(), Some(2));
    assert_eq!(bounded.batch_size(), 3);
    assert_eq!(bounded.launched(), 0);
}

#[test]
fn bounded_aggregator_launches_only_when_there_is_room() {
    let mut aggregator = Aggregator::bounded(5, 100, 2).expect("a bound of two is accepted");
    assert_eq!(
        aggregator.next_action(),
        Action::Launch(WorkUnit { index: 0, delay_millis: 100 })
    );
    assert_eq!(
        aggregator.next_action(),
        Action::Launch(WorkUnit { index: 1, delay_millis: 100 })
    );
    assert_eq!(aggregator.next_action(), Action::AwaitCompletion);
    assert_eq!(aggregator.record(Completion::Yielded(1)), Ok(()));
    assert_eq!(
        aggregator.next_action(),
        Action::Launch(WorkUnit { index: 2, delay_millis: 100 })
    );
    assert_eq!(aggregator.next_action(), Action::AwaitCompletion);
    assert_eq!(aggregator.record(Completion::Yielded(0)), Ok(()));
    assert_eq!(aggregator.record(Completion::Yielded(2)), Ok(()));
    assert_eq!(
        aggregator.next_action(),
        Action::Launch(WorkUnit { index: 3, delay_millis: 100 })
    );
    assert_eq!(
        aggregator.next_action(),
        Action::Launch(WorkUnit { index: 4, delay_millis: 100 })
    );
    assert_eq!(aggregator.next_action(), Action::AwaitCompletion);
    assert_eq!(aggregator.record(Completion::Yielded(4)), Ok(()));
    assert_eq!(aggregator.next_action(), Action::AwaitCompletion);
    assert_eq!(aggregator.record(Completion::Yielded(3)), Ok(()));
    assert_eq!(aggregator.next_action(), Action::Report(10));
}

#[test]
fn bounded_aggregator_never_exceeds_its_bound() {
    for bound in 1..8u64 {
        let mut aggregator = Aggregator::bounded(20, 0, bound).expect("a positive bound");
        let mut waiting: Vec<WorkUnit> = Vec::new();
        let sum = loop {
            match aggregator.next_action() {
                Action::Launch(unit) => waiting.push(unit),
                Action::AwaitCompletion => {
                    let unit = waiting.pop().expect("a unit is in flight");
                    assert_eq!(aggregator.record(Completion::Yielded(unit.result())), Ok(()));
                }
                Action::Report(sum) => break sum,
                Action::Abort(error) => panic!("unexpected failure: {error:?}"),
            }
            assert!(waiting.len() as u64 <= bound);
            assert_eq!(
                aggregator.launched() - aggregator.completed(),
                waiting.len() as u64
            );
        };
        assert_eq!(sum, 190);
        assert!(waiting.is_empty());
    }
}

#[test]
fn bound_as_large_as_the_batch_changes_nothing() {
    let mut aggregator = Aggregator::bounded(3, 100, 3).expect("a bound of three is accepted");
    let units = launch_all(&mut aggregator);
    assert_eq!(units.len(), 3);
    assert_eq!(aggregator.record(Completion::Yielded(2)), Ok(()));
    assert_eq!(aggregator.record(Completion::Yielded(1)), Ok(()));
    assert_eq!(aggregator.record(Completion::Yielded(0)), Ok(()));
    assert_eq!(aggregator.next_action(), Action::Report(3));
}

#[test]
fn bounded_aggregator_reports_a_fault() {
    let mut aggregator = Aggregator::bounded(4, 100, 1).expect("a bound of one is accepted");
    assert_eq!(
        aggregator.next_action(),
        Action::Launch(WorkUnit { index: 0, delay_millis: 100 })
    );
    assert_eq!(aggregator.next_action(), Action::AwaitCompletion);
    assert_eq!(
        aggregator.record(Completion::Faulted),
        Err(AggregateError::UnitFaulted)
    );
    assert_eq!(
        aggregator.next_action(),
        Action::Abort(AggregateError::UnitFaulted)
    );
    assert_eq!(aggregator.launched(), 1);
}
