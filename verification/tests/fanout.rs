use vtuber_stats::error::{Error, Platform};
use vtuber_stats::fanout::{
    bounded_tolerant, join_all_or_fail, run_bounded, Fanout, DEFAULT_CONCURRENCY,
};

fn leg(i: usize) -> Result<u32, Error> {
    if i % 2 == 1 {
        Err(Error::Upstream { platform: Platform::Store, status: 500 + i as u16 })
    } else {
        Ok(10 * i as u32)
    }
}

/// Runs a batch to its end. Among the legs in flight, the one that ends next
/// is picked by `pick` from their number.
fn drive(total: usize, width: usize, pick: fn(usize) -> usize) -> (Vec<Result<u32, Error>>, usize) {
    let mut batch: Fanout<Result<u32, Error>> = Fanout::new(total, width).expect("a window of positive width");
    let mut running: Vec<usize> = Vec::new();
    let mut most_in_flight = 0;
    while !batch.is_finished() {
        while let Some(started) = batch.start_next() {
            running.push(started);
        }
        assert_eq!(batch.in_flight(), running.len());
        assert!(running.len() <= width);
        assert!(!running.is_empty());
        most_in_flight = most_in_flight.max(running.len());
        let ended = running.remove(pick(running.len()));
        assert!(batch.complete(ended, leg(ended)));
    }
    assert_eq!(batch.start_next(), None);
    (batch.into_outcomes().expect("finished"), most_in_flight)
}

fn oldest(_in_flight: usize) -> usize {
    0
}

fn newest(in_flight: usize) -> usize {
    in_flight - 1
}

fn middle(in_flight: usize) -> usize {
    in_flight / 2
}

#[test]
fn default_window_is_ten_wide() {
    assert_eq!(DEFAULT_CONCURRENCY, 10);
}

#[test]
fn tolerant_batch_of_seven_under_width_three_keeps_the_four_even_legs() {
    let (outcomes, most_in_flight) = drive(7, 3, newest);
    assert_eq!(most_in_flight, 3);
    assert_eq!(bounded_tolerant(outcomes), vec![(0, 0), (2, 20), (4, 40), (6, 60)]);
}

#[test]
fn tolerant_batch_does_not_depend_on_width_or_completion_order() {
    for total in 0..12 {
        let expected: Vec<(usize, u32)> =
            (0..total).filter(|i| i % 2 == 0).map(|i| (i, 10 * i as u32)).collect();
        for width in 1..14 {
            for pick in [oldest as fn(usize) -> usize, newest, middle] {
                let (outcomes, most_in_flight) = drive(total, width, pick);
                assert_eq!(outcomes.len(), total);
                assert_eq!(most_in_flight, width.min(total));
                assert_eq!(bounded_tolerant(outcomes), expected);
            }
        }
    }
}

#[test]
fn tasks_run_under_any_window_give_the_same_outcomes() {
    let expected: Vec<Result<u32, Error>> = (0..7).map(leg).collect();
    for width in 1..10 {
        assert_eq!(run_bounded(7, width, leg), Some(expected.clone()));
    }
    assert_eq!(
        run_bounded(7, 3, leg).map(bounded_tolerant),
        Some(vec![(0, 0), (2, 20), (4, 40), (6, 60)])
    );
    assert_eq!(run_bounded(7, 0, leg), None);
    assert_eq!(run_bounded(0, 3, leg), Some(Vec::new()));
}

#[test]
fn tasks_run_in_the_order_of_their_legs() {
    let calls = std::cell::RefCell::new(Vec::new());
    let outcomes = run_bounded(5, 2, |i| {
        calls.borrow_mut().push(i);
        i * i
    });
    assert_eq!(outcomes, Some(vec![0, 1, 4, 9, 16]));
    assert_eq!(calls.into_inner(), vec![0, 1, 2, 3, 4]);
}

#[test]
fn all_or_nothing_batch_fails_on_a_single_failure() {
    let mut outcomes: Vec<Result<u32, Error>> = (0..9).map(|i| Ok(i)).collect();
    outcomes[6] = Err(Error::Transport);
    assert_eq!(join_all_or_fail(outcomes), Err(Error::Transport));
}

#[test]
fn all_or_nothing_batch_reports_the_first_failed_leg() {
    let outcomes: Vec<Result<u32, Error>> = (0..7).map(leg).collect();
    assert_eq!(
        join_all_or_fail(outcomes),
        Err(Error::Upstream { platform: Platform::Store, status: 501 })
    );
}

#[test]
fn all_or_nothing_batch_of_successes_gives_all_values_in_order() {
    let outcomes: Vec<Result<u32, Error>> = vec![Ok(3), Ok(1), Ok(2)];
    assert_eq!(join_all_or_fail(outcomes), Ok(vec![3, 1, 2]));
    assert_eq!(join_all_or_fail(Vec::<Result<u32, Error>>::new()), Ok(Vec::new()));
}

#[test]
fn tolerant_batch_of_failures_is_empty() {
    let outcomes: Vec<Result<u32, Error>> = vec![Err(Error::Transport), Err(Error::EmptyInput)];
    assert_eq!(bounded_tolerant(outcomes), Vec::new());
    assert_eq!(bounded_tolerant(Vec::<Result<u32, Error>>::new()), Vec::new());
}

#[test]
fn window_of_width_zero_does_not_exist() {
    assert!(Fanout::<u32>::new(5, 0).is_none());
    assert!(Fanout::<u32>::new(0, 0).is_none());
    assert!(Fanout::<u32>::new(0, 1).is_some());
}

#[test]
fn batch_without_legs_is_finished_at_once() {
    let mut batch: Fanout<Result<u32, Error>> = Fanout::new(0, 4).expect("positive width");
    assert!(batch.is_finished());
    assert_eq!(batch.start_next(), None);
    assert_eq!(batch.in_flight(), 0);
    assert_eq!(batch.into_outcomes(), Some(Vec::new()));
}

#[test]
fn window_holds_back_the_queue_until_a_leg_ends() {
    let mut batch: Fanout<Result<u32, Error>> = Fanout::new(5, 2).expect("positive width");
    assert_eq!(batch.start_next(), Some(0));
    assert_eq!(batch.start_next(), Some(1));
    assert_eq!(batch.start_next(), None);
    assert_eq!(batch.in_flight(), 2);
    assert!(batch.complete(1, Ok(11)));
    assert_eq!(batch.in_flight(), 1);
    assert_eq!(batch.start_next(), Some(2));
    assert_eq!(batch.start_next(), None);
    assert!(!batch.is_finished());
}

#[test]
fn outcome_of_a_leg_that_is_not_running_is_refused() {
    let mut batch: Fanout<Result<u32, Error>> = Fanout::new(3, 2).expect("positive width");
    assert!(!batch.complete(0, Ok(1)));
    assert_eq!(batch.start_next(), Some(0));
    assert!(!batch.complete(1, Ok(1)));
    assert!(!batch.complete(3, Ok(1)));
    assert!(!batch.complete(usize::MAX, Ok(1)));
    assert!(batch.complete(0, Err(Error::Transport)));
    assert!(!batch.complete(0, Ok(1)));
    assert_eq!(batch.in_flight(), 0);
    assert_eq!(batch.start_next(), Some(1));
    assert_eq!(batch.start_next(), Some(2));
    assert!(batch.complete(2, Ok(22)));
    assert!(batch.complete(1, Ok(11)));
    assert!(batch.is_finished());
    assert_eq!(batch.into_outcomes(), Some(vec![Err(Error::Transport), Ok(11), Ok(22)]));
}

#[test]
fn window_keeps_outcomes_of_any_kind_under_their_legs() {
    let mut batch: Fanout<&str> = Fanout::new(3, 3).expect("positive width");
    assert_eq!(batch.start_next(), Some(0));
    assert_eq!(batch.start_next(), Some(1));
    assert_eq!(batch.start_next(), Some(2));
    assert!(batch.complete(2, "third"));
    assert!(batch.complete(0, "first"));
    assert!(batch.complete(1, "second"));
    assert_eq!(batch.into_outcomes(), Some(vec!["first", "second", "third"]));
}

#[test]
fn unfinished_batch_has_no_outcomes() {
    let mut batch: Fanout<Result<u32, Error>> = Fanout::new(2, 2).expect("positive width");
    assert_eq!(batch.start_next(), Some(0));
    assert!(batch.complete(0, Ok(1)));
    assert_eq!(batch.into_outcomes(), None);
}
