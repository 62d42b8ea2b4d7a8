use jiff::{civil::Time, ToSpan};
use twine_components::schedules::step_schedule::{
    Step, StepSchedule, StepScheduleError, LINEAR_SEARCH_THRESHOLD,
};

/// Nanoseconds since midnight: the schedule's ticks for a time of day.
fn ticks(time: Time) -> i64 {
    let seconds = i64::from(time.hour()) * 3600
        + i64::from(time.minute()) * 60
        + i64::from(time.second());
    seconds * 1_000_000_000 + i64::from(time.subsec_nanosecond())
}

fn t(hour: i8, minute: i8) -> i64 {
    ticks(Time::constant(hour, minute, 0, 0))
}

#[test]
fn valid_schedule_is_ok() {
    let schedule = StepSchedule::new(vec![
        Step::new(8, 12, "morning"),
        Step::new(12, 18, "afternoon"),
    ]);

    assert!(schedule.is_ok());
}

#[test]
fn error_on_invalid_step() {
    let schedule = StepSchedule::new(vec![
        Step::new(5, 7, "ok"),
        Step::new(9, 10, "ok"),
        Step::new(8, 8, "bad"),
    ]);

    if let Err(StepScheduleError::InvalidStep { step }) = schedule {
        assert_eq!(step.value, "bad");
    } else {
        panic!("Expected InvalidStep error")
    }
}

#[test]
fn error_on_overlapping_steps() {
    let schedule = StepSchedule::new(vec![
        Step::new(t(7, 0), t(8, 0), 1),
        Step::new(t(8, 0), t(10, 0), 2),
        Step::new(t(9, 30), t(11, 0), 3),
    ]);

    if let Err(StepScheduleError::OverlappingSteps { first, second }) = schedule {
        assert_eq!(first.start, t(8, 0));
        assert_eq!(second.start, t(9, 30));
    } else {
        panic!("Expected OverlappingSteps error")
    }
}

#[test]
fn value_at_returns_none_for_empty_schedule() {
    let schedule: StepSchedule<i32> = StepSchedule::new(vec![]).unwrap();

    assert!(schedule.value_at(&0).is_none());
}

#[test]
fn value_at_finds_correct_step() {
    let schedule = StepSchedule::new(vec![
        Step::new(t(8, 0), t(10, 0), "early"),
        Step::new(t(10, 0), t(12, 0), "late"),
    ])
    .unwrap();

    assert_eq!(schedule.value_at(&t(7, 0)), None);
    assert_eq!(schedule.value_at(&t(8, 0)), Some(&"early"));
    assert_eq!(schedule.value_at(&t(9, 59)), Some(&"early"));
    assert_eq!(schedule.value_at(&t(10, 0)), Some(&"late"));
    assert_eq!(schedule.value_at(&t(11, 59)), Some(&"late"));
    assert_eq!(schedule.value_at(&t(12, 0)), None);
    assert_eq!(schedule.value_at(&t(14, 0)), None);
}

#[test]
fn value_at_works_with_many_steps() {
    let steps: Vec<_> = (0..100)
        .map(|i| {
            let start = Time::midnight() + (i * 10).minutes();
            let end = start + 5.minutes();
            Step {
                start: ticks(start),
                end: ticks(end),
                value: i,
            }
        })
        .collect();

    let schedule = StepSchedule::new(steps).unwrap();

    assert_eq!(schedule.value_at(&t(0, 0)), Some(&0));
    assert_eq!(
        schedule.value_at(&ticks(Time::constant(0, 4, 59, 999_999_999))),
        Some(&0)
    );
    assert_eq!(schedule.value_at(&t(0, 5)), None);

    assert_eq!(schedule.value_at(&t(0, 0)), Some(&0));
    assert_eq!(schedule.value_at(&t(0, 5)), None);
}

#[test]
fn new_sorts_steps_given_out_of_order() {
    let schedule = StepSchedule::new(vec![
        Step::new(20, 30, 'c'),
        Step::new(0, 10, 'a'),
        Step::new(10, 20, 'b'),
    ])
    .unwrap();

    assert_eq!(schedule.value_at(&-1), None);
    assert_eq!(schedule.value_at(&0), Some(&'a'));
    assert_eq!(schedule.value_at(&10), Some(&'b'));
    assert_eq!(schedule.value_at(&29), Some(&'c'));
    assert_eq!(schedule.value_at(&30), None);
}

#[test]
fn gaps_between_steps_have_no_value() {
    let schedule = StepSchedule::new(vec![Step::new(0, 5, 1u8), Step::new(8, 9, 2u8)]).unwrap();

    assert_eq!(schedule.value_at(&5), None);
    assert_eq!(schedule.value_at(&7), None);
    assert_eq!(schedule.value_at(&8), Some(&2));
}

#[test]
fn first_invalid_step_in_given_order_is_reported() {
    let schedule = StepSchedule::new(vec![
        Step::new(0, 1, "ok"),
        Step::new(5, 4, "reversed"),
        Step::new(3, 3, "empty"),
    ]);

    assert_eq!(
        schedule.err(),
        Some(StepScheduleError::InvalidStep {
            step: Step::new(5, 4, "reversed")
        })
    );
}

#[test]
fn invalid_step_is_reported_before_overlap() {
    let schedule = StepSchedule::new(vec![
        Step::new(0, 10, 1),
        Step::new(5, 15, 2),
        Step::new(20, 20, 3),
    ]);

    assert_eq!(
        schedule.err(),
        Some(StepScheduleError::InvalidStep {
            step: Step::new(20, 20, 3)
        })
    );
}

#[test]
fn overlap_is_reported_in_sorted_order() {
    let schedule = StepSchedule::new(vec![
        Step::new(40, 50, 'd'),
        Step::new(0, 10, 'a'),
        Step::new(30, 45, 'c'),
        Step::new(10, 20, 'b'),
    ]);

    assert_eq!(
        schedule.err(),
        Some(StepScheduleError::OverlappingSteps {
            first: Step::new(30, 45, 'c'),
            second: Step::new(40, 50, 'd'),
        })
    );
}

#[test]
fn equal_starts_keep_their_given_order_in_errors() {
    let schedule = StepSchedule::new(vec![Step::new(3, 6, "x"), Step::new(3, 4, "y")]);

    assert_eq!(
        schedule.err(),
        Some(StepScheduleError::OverlappingSteps {
            first: Step::new(3, 6, "x"),
            second: Step::new(3, 4, "y"),
        })
    );
}

#[test]
fn touching_steps_do_not_overlap() {
    assert!(StepSchedule::new(vec![Step::new(1, 2, ()), Step::new(2, 3, ())]).is_ok());
}

#[test]
fn bisection_agrees_with_scan_on_long_schedules() {
    let n = (LINEAR_SEARCH_THRESHOLD as i64) * 3 + 1;
    let steps: Vec<_> = (0..n).rev().map(|i| Step::new(3 * i, 3 * i + 2, i)).collect();
    let schedule = StepSchedule::new(steps).unwrap();

    for time in -2..(3 * n + 2) {
        let expected = if time >= 0 && time < 3 * n && time % 3 != 2 {
            Some(time / 3)
        } else {
            None
        };
        assert_eq!(schedule.value_at(&time).copied(), expected, "time {time}");
    }
}

#[test]
fn call_returns_owned_value() {
    let schedule =
        StepSchedule::new(vec![Step::new(0, 10, String::from("on"))]).unwrap();

    assert_eq!(schedule.call(5), Ok(Some(String::from("on"))));
    assert_eq!(schedule.call(10), Ok(None));
}

#[test]
fn order_of_steps_does_not_change_schedule() {
    let steps = [
        Step::new(0, 4, 'a'),
        Step::new(4, 9, 'b'),
        Step::new(12, 15, 'c'),
    ];
    let forward = StepSchedule::new(steps.to_vec()).unwrap();
    let backward = StepSchedule::new(steps.iter().rev().copied().collect()).unwrap();
    let shuffled = StepSchedule::new(vec![steps[1], steps[2], steps[0]]).unwrap();

    for time in -1..17 {
        assert_eq!(forward.value_at(&time), backward.value_at(&time));
        assert_eq!(forward.value_at(&time), shuffled.value_at(&time));
    }
}

#[test]
fn at_most_one_step_answers_each_time() {
    let schedule = StepSchedule::new(vec![
        Step::new(10, 20, 1),
        Step::new(20, 30, 2),
        Step::new(30, 31, 3),
    ])
    .unwrap();

    assert_eq!(schedule.value_at(&19), Some(&1));
    assert_eq!(schedule.value_at(&20), Some(&2));
    assert_eq!(schedule.value_at(&30), Some(&3));
    assert_eq!(schedule.value_at(&31), None);
}
