//! The state machine, one step at a time.

use join_me_maybe_core::driver::{Action, BodyPoll, Join, Output};
use join_me_maybe_core::poll::Poll;
use join_me_maybe_core::shape::{ArmShape, Bump, Kind};

fn arm(kind: Kind) -> ArmShape {
    ArmShape { kind, is_maybe: false, labeled: false }
}

fn maybe(shape: ArmShape) -> ArmShape {
    ArmShape { is_maybe: true, ..shape }
}

fn label(shape: ArmShape) -> ArmShape {
    ArmShape { labeled: true, ..shape }
}

/// The next thing that the caller is told to do, as text.
fn next(join: &mut Join<i32>) -> String {
    let mut silent = 0;
    loop {
        if let Some(action) = join.step() {
            return format!("{:?}", action);
        }
        silent += 1;
        // A join does not spin.
        assert!(silent <= 12, "an answer is due");
    }
}

fn expect(join: &mut Join<i32>, actions: &[&str]) {
    for action in actions {
        assert_eq!(next(join), *action);
    }
}

#[test]
fn arms_count_in_three_ways() {
    let future = arm(Kind::Future);
    assert_eq!(future.bump(), Bump::Always);
    assert_eq!(label(future).bump(), Bump::Once);
    assert_eq!(maybe(future).bump(), Bump::Never);
    assert_eq!(maybe(label(future)).bump(), Bump::Never);
}

#[test]
fn kinds_of_arms() {
    let yes_no = |f: fn(&ArmShape) -> bool| {
        [Kind::Future, Kind::FutureBody, Kind::Stream, Kind::StreamFinally].map(|kind| f(&arm(kind)))
    };
    assert_eq!(yes_no(ArmShape::is_stream), [false, false, true, true]);
    assert_eq!(yes_no(ArmShape::has_body), [false, true, true, true]);
    assert_eq!(yes_no(ArmShape::has_finally), [false, false, false, true]);
    assert_eq!(yes_no(ArmShape::has_value), [true, true, false, true]);
    assert!(!arm(Kind::Future).cancellable());
    assert!(maybe(arm(Kind::Future)).cancellable());
    assert!(label(arm(Kind::Future)).cancellable());
}

#[test]
fn a_join_of_nothing_is_done() {
    let mut join = Join::<i32>::new(&vec![]);
    assert!(join.definitely_finished());
    expect(&mut join, &["Finish", "Finish"]);
    assert_eq!(join.outputs(), vec![]);
}

#[test]
fn waits_only_with_everyone_registered() {
    let mut join = Join::new(&vec![arm(Kind::Future), arm(Kind::Future)]);
    expect(&mut join, &["PollArm(0)"]);
    assert!(!join.future_polled(Poll::Pending));
    expect(&mut join, &["PollArm(1)"]);
    assert!(join.future_polled(Poll::Ready(5)));
    // The second arm is over, and only the first is polled again.
    expect(&mut join, &["Yield", "PollArm(0)"]);
    assert!(!join.definitely_finished());
    assert!(join.future_polled(Poll::Ready(4)));
    assert!(join.definitely_finished());
    expect(&mut join, &["Finish"]);
    assert_eq!(join.outputs(), vec![Output::Value(4), Output::Value(5)]);
}

#[test]
fn an_answer_is_waited_for() {
    let mut join = Join::new(&vec![arm(Kind::Future)]);
    expect(&mut join, &["PollArm(0)"]);
    for _ in 0..3 {
        assert!(join.step().is_none());
    }
    // Answers that were not asked for change nothing.
    assert!(!join.stream_polled(Poll::Ready(Some(1))));
    join.body_polled(BodyPoll::Completed(1));
    assert!(join.step().is_none());
    assert!(join.future_polled(Poll::Ready(2)));
    assert!(!join.future_polled(Poll::Ready(3)));
    expect(&mut join, &["Finish"]);
    assert_eq!(join.outputs(), vec![Output::Value(2)]);
}

#[test]
fn nobody_is_polled_once_nothing_is_left_to_wait_for() {
    let mut join = Join::new(&vec![arm(Kind::Future), maybe(arm(Kind::Future))]);
    expect(&mut join, &["PollArm(0)"]);
    assert!(!join.gone(1));
    join.future_polled(Poll::Ready(1));
    assert!(join.gone(1));
    assert!(!join.gone(0));
    // What is left behind is dropped.
    expect(&mut join, &["DropArm(1)", "Finish"]);
    assert!(join.gone(1));
    assert_eq!(join.outputs(), vec![Output::Value(1), Output::Maybe(None)]);
}

#[test]
fn a_cancelled_arm_is_dropped_and_never_polled_again() {
    let mut join = Join::new(&vec![label(arm(Kind::Future)), arm(Kind::Future)]);
    expect(&mut join, &["PollArm(0)"]);
    join.future_polled(Poll::Pending);
    expect(&mut join, &["PollArm(1)"]);
    join.cancel(0);
    assert!(join.gone(0));
    join.future_polled(Poll::Pending);
    expect(&mut join, &["DropArm(0)", "Yield", "PollArm(1)"]);
    join.future_polled(Poll::Pending);
    expect(&mut join, &["Yield", "PollArm(1)"]);
    join.future_polled(Poll::Ready(1));
    expect(&mut join, &["Finish"]);
    assert!(join.gone(0));
    assert_eq!(join.outputs(), vec![Output::Maybe(None), Output::Value(1)]);
}

#[test]
fn cancelling_twice_counts_once() {
    let mut join =
        Join::<i32>::new(&vec![label(arm(Kind::Future)), label(arm(Kind::Future))]);
    join.cancel(0);
    join.cancel(0);
    assert!(!join.definitely_finished());
    join.cancel(1);
    assert!(join.definitely_finished());
    expect(&mut join, &["DropArm(0)", "DropArm(1)", "Finish"]);
    assert_eq!(join.outputs(), vec![Output::Maybe(None), Output::Maybe(None)]);
}

#[test]
fn cancels_come_in_any_order() {
    let shapes = vec![label(arm(Kind::Future)), label(maybe(arm(Kind::Future))), arm(Kind::Future)];
    let run = |order: [usize; 2]| {
        let mut join = Join::new(&shapes);
        for i in order {
            join.cancel(i);
        }
        let mut seen = vec![next(&mut join)];
        join.future_polled(Poll::Ready(1));
        seen.extend([next(&mut join), next(&mut join), next(&mut join)]);
        (seen, join.outputs())
    };
    assert_eq!(run([0, 1]), run([1, 0]));
    assert_eq!(run([0, 1]).0, ["PollArm(2)", "DropArm(0)", "DropArm(1)", "Finish"]);
}

#[test]
fn cancelling_what_has_finished_does_not_count() {
    let mut join = Join::new(&vec![label(arm(Kind::Future)), arm(Kind::Future)]);
    expect(&mut join, &["PollArm(0)"]);
    join.future_polled(Poll::Ready(1));
    join.cancel(0);
    assert!(!join.definitely_finished());
    expect(&mut join, &["PollArm(1)"]);
    join.future_polled(Poll::Ready(2));
    assert!(join.definitely_finished());
    expect(&mut join, &["Finish"]);
    // Its value is kept.
    assert_eq!(join.outputs(), vec![Output::Maybe(Some(1)), Output::Value(2)]);
}

#[test]
fn one_body_at_a_time_and_each_item_once() {
    let mut join = Join::new(&vec![arm(Kind::Stream), arm(Kind::FutureBody)]);
    expect(&mut join, &["PollArm(0)"]);
    assert!(!join.stream_polled(Poll::Ready(Some(10))));
    // The body runs as soon as it can.
    expect(&mut join, &["StartBody(0, 10)", "PollBody(0)"]);
    join.body_polled(BodyPoll::Pending);
    // The body of the other arm has to wait, and the stream goes on meanwhile.
    expect(&mut join, &["PollArm(1)"]);
    assert!(join.future_polled(Poll::Ready(20)));
    expect(&mut join, &["PollBody(0)"]);
    join.body_polled(BodyPoll::Pending);
    expect(&mut join, &["PollArm(0)"]);
    join.stream_polled(Poll::Ready(Some(11)));
    expect(&mut join, &["PollBody(0)"]);
    join.body_polled(BodyPoll::Pending);
    // The stream is not asked for more while its item waits.
    expect(&mut join, &["Yield", "PollBody(0)"]);
    join.body_polled(BodyPoll::Completed(0));
    expect(&mut join, &["StartBody(0, 11)", "PollBody(0)"]);
    join.body_polled(BodyPoll::Completed(0));
    expect(&mut join, &["StartBody(1, 20)", "PollBody(1)"]);
    join.body_polled(BodyPoll::Completed(21));
    // An item was taken, so the stream is polled again without waiting.
    expect(&mut join, &["PollArm(0)"]);
    assert!(join.stream_polled(Poll::Ready(None)));
    expect(&mut join, &["Finish"]);
    assert_eq!(join.outputs(), vec![Output::Unit, Output::Value(21)]);
}

#[test]
fn finally_follows_the_last_item_and_runs_once() {
    let mut join = Join::new(&vec![arm(Kind::StreamFinally)]);
    expect(&mut join, &["PollArm(0)"]);
    join.stream_polled(Poll::Ready(Some(1)));
    expect(&mut join, &["StartBody(0, 1)", "PollBody(0)"]);
    join.body_polled(BodyPoll::Pending);
    // The stream ends while the body runs.
    expect(&mut join, &["PollArm(0)"]);
    assert!(join.stream_polled(Poll::Ready(None)));
    assert!(join.definitely_finished());
    expect(&mut join, &["PollBody(0)"]);
    join.body_polled(BodyPoll::Completed(0));
    expect(&mut join, &["StartFinally(0)", "PollBody(0)"]);
    join.body_polled(BodyPoll::Completed(7));
    expect(&mut join, &["Finish", "Finish"]);
    assert_eq!(join.outputs(), vec![Output::Value(7)]);
}

#[test]
fn a_cancelled_body_is_dropped() {
    let mut join = Join::new(&vec![label(arm(Kind::FutureBody)), arm(Kind::Future)]);
    expect(&mut join, &["PollArm(0)"]);
    join.future_polled(Poll::Ready(1));
    expect(&mut join, &["StartBody(0, 1)", "PollBody(0)"]);
    join.body_polled(BodyPoll::Pending);
    expect(&mut join, &["PollArm(1)"]);
    join.cancel(0);
    join.future_polled(Poll::Pending);
    expect(&mut join, &["DropBody(0)", "Yield", "PollArm(1)"]);
    join.future_polled(Poll::Ready(2));
    expect(&mut join, &["Finish"]);
    assert_eq!(join.outputs(), vec![Output::Maybe(None), Output::Value(2)]);
}

#[test]
fn what_a_body_cancels_is_dropped_before_waiting() {
    let mut join = Join::new(&vec![
        label(arm(Kind::Future)),
        arm(Kind::FutureBody),
        arm(Kind::Future),
    ]);
    expect(&mut join, &["PollArm(0)"]);
    join.future_polled(Poll::Pending);
    expect(&mut join, &["PollArm(1)"]);
    join.future_polled(Poll::Ready(1));
    expect(&mut join, &["StartBody(1, 1)", "PollBody(1)"]);
    join.cancel(0);
    join.body_polled(BodyPoll::Completed(1));
    expect(&mut join, &["DropArm(0)", "PollArm(2)"]);
    join.future_polled(Poll::Pending);
    expect(&mut join, &["Yield", "PollArm(2)"]);
}

#[test]
fn an_item_of_a_cancelled_arm_goes_with_it() {
    let mut join = Join::new(&vec![
        arm(Kind::FutureBody),
        label(arm(Kind::Stream)),
        arm(Kind::Future),
    ]);
    expect(&mut join, &["PollArm(0)"]);
    join.future_polled(Poll::Ready(1));
    expect(&mut join, &["StartBody(0, 1)", "PollBody(0)"]);
    join.body_polled(BodyPoll::Pending);
    expect(&mut join, &["PollArm(1)"]);
    join.stream_polled(Poll::Ready(Some(5)));
    expect(&mut join, &["PollArm(2)"]);
    join.cancel(1);
    join.future_polled(Poll::Ready(3));
    expect(&mut join, &["DropArm(1)", "PollBody(0)"]);
    join.body_polled(BodyPoll::Completed(2));
    expect(&mut join, &["Finish"]);
    assert_eq!(join.outputs(), vec![Output::Value(2), Output::Unit, Output::Value(3)]);
}

#[test]
fn a_return_is_final() {
    let mut join = Join::new(&vec![label(arm(Kind::FutureBody)), arm(Kind::Future)]);
    expect(&mut join, &["PollArm(0)"]);
    join.future_polled(Poll::Ready(1));
    expect(&mut join, &["StartBody(0, 1)", "PollBody(0)"]);
    join.body_polled(BodyPoll::Returned);
    expect(&mut join, &["Return", "Return"]);
    join.cancel(0);
    join.body_polled(BodyPoll::Completed(1));
    expect(&mut join, &["Return"]);
}

#[test]
fn a_finished_join_keeps_its_values() {
    let mut join = Join::new(&vec![label(arm(Kind::Future)), maybe(arm(Kind::Future))]);
    expect(&mut join, &["PollArm(0)"]);
    join.future_polled(Poll::Ready(1));
    expect(&mut join, &["DropArm(1)", "Finish"]);
    join.cancel(0);
    expect(&mut join, &["Finish"]);
    assert_eq!(join.outputs(), vec![Output::Maybe(Some(1)), Output::Maybe(None)]);
}

#[test]
fn actions_name_their_arms() {
    assert_eq!(format!("{:?}", Action::<i32>::DropBody(3)), "DropBody(3)");
}

#[test]
fn a_body_that_is_cancelled_by_a_drop_is_dropped_before_waiting() {
    let mut join = Join::new(&vec![
        label(arm(Kind::FutureBody)),
        label(arm(Kind::Future)),
        arm(Kind::Future),
    ]);
    expect(&mut join, &["PollArm(0)"]);
    join.future_polled(Poll::Ready(1));
    expect(&mut join, &["StartBody(0, 1)", "PollBody(0)"]);
    join.body_polled(BodyPoll::Pending);
    expect(&mut join, &["PollArm(1)"]);
    join.future_polled(Poll::Pending);
    expect(&mut join, &["PollArm(2)"]);
    join.future_polled(Poll::Pending);
    expect(&mut join, &["PollBody(0)"]);
    join.cancel(1);
    join.body_polled(BodyPoll::Pending);
    expect(&mut join, &["DropArm(1)"]);
    // Dropping the future cancels the arm whose body is running.
    join.cancel(0);
    expect(&mut join, &["DropBody(0)", "Yield", "PollArm(2)"]);
}

#[test]
fn a_body_of_a_cancelled_arm_is_dropped_unpolled() {
    let mut join = Join::new(&vec![arm(Kind::FutureBody), label(arm(Kind::StreamFinally))]);
    expect(&mut join, &["PollArm(0)"]);
    join.future_polled(Poll::Ready(1));
    expect(&mut join, &["StartBody(0, 1)", "PollBody(0)"]);
    join.body_polled(BodyPoll::Pending);
    expect(&mut join, &["PollArm(1)"]);
    join.stream_polled(Poll::Ready(None));
    expect(&mut join, &["PollBody(0)"]);
    join.cancel(1);
    join.body_polled(BodyPoll::Completed(2));
    expect(&mut join, &["StartFinally(1)", "DropBody(1)", "Finish"]);
    assert_eq!(join.outputs(), vec![Output::Value(2), Output::Maybe(None)]);
}

#[test]
fn a_join_ends_once_no_body_is_owed() {
    let mut join = Join::new(&vec![arm(Kind::FutureBody), maybe(arm(Kind::FutureBody))]);
    expect(&mut join, &["PollArm(0)"]);
    join.future_polled(Poll::Ready(1));
    // Nothing is left to wait for but the body.
    assert!(join.definitely_finished());
    expect(&mut join, &["DropArm(1)", "StartBody(0, 1)", "PollBody(0)"]);
    join.body_polled(BodyPoll::Pending);
    expect(&mut join, &["Yield", "PollBody(0)"]);
    join.body_polled(BodyPoll::Completed(2));
    expect(&mut join, &["Finish"]);
    assert_eq!(join.outputs(), vec![Output::Value(2), Output::Maybe(None)]);
}
