//! Cancellers, and futures and streams that are dropped when they are over.

use join_me_maybe_core::canceller::{new_canceller, new_canceller_mut};
use join_me_maybe_core::maybe_done::{ForEach, MaybeDone, MaybeDoneStream};
use join_me_maybe_core::poll::{Poll, PollNextOnce, PollOnce};

#[test]
fn cancelling_sets_the_flags_and_counts_once() {
    let (mut cancelled, mut finished, mut count) = (false, false, 3);
    {
        let mut canceller = new_canceller(&mut cancelled, Some(&mut finished), &mut count);
        canceller.cancel();
        canceller.cancel();
        assert_eq!(canceller.fmt(), "Canceller { .. }");
    }
    assert_eq!((cancelled, finished, count), (true, true, 4));
}

#[test]
fn a_finished_flag_stops_the_count() {
    let (mut cancelled, mut finished, mut count) = (false, true, 3);
    new_canceller(&mut cancelled, Some(&mut finished), &mut count).cancel();
    assert_eq!((cancelled, finished, count), (true, true, 3));
}

#[test]
fn cancelling_a_maybe_arm_does_not_count() {
    let (mut cancelled, mut count) = (false, 3);
    new_canceller(&mut cancelled, None, &mut count).cancel();
    assert_eq!((cancelled, count), (true, 3));
}

#[test]
fn the_count_wraps_around() {
    let (mut cancelled, mut finished, mut count) = (false, false, usize::MAX);
    new_canceller(&mut cancelled, Some(&mut finished), &mut count).cancel();
    assert_eq!(count, 0);
}

#[test]
fn bodies_reach_the_future_of_a_label() {
    let (mut cancelled, mut finished, mut count) = (false, false, 0);
    let mut cell = Some(vec![1, 2]);
    {
        let mut label =
            new_canceller_mut(&mut cancelled, Some(&mut finished), &mut count, &mut cell);
        label.as_pin_mut().unwrap().push(3);
        let len = label.with_pin_mut(|arm| {
            let arm = arm.unwrap();
            arm.push(4);
            arm.len()
        });
        assert_eq!(len, 4);
        let last = label.with_mut(|arm| arm.unwrap().pop());
        assert_eq!(last, Some(4));
        assert_eq!(label.fmt(), "CancellerMut { .. }");
        label.cancel();
        // Cancelling does not drop it. The join does.
        assert!(label.as_pin_mut().is_some());
    }
    assert_eq!(cell, Some(vec![1, 2, 3]));
    assert_eq!((cancelled, finished, count), (true, true, 1));
}

#[test]
fn bodies_find_nothing_of_an_arm_that_is_over() {
    let (mut cancelled, mut count) = (false, 0);
    let mut cell: Option<Vec<i32>> = None;
    let mut label = new_canceller_mut(&mut cancelled, None, &mut count, &mut cell);
    assert!(label.as_pin_mut().is_none());
    // The closure still runs.
    assert_eq!(label.with_pin_mut(|arm| arm.is_none()), true);
    assert_eq!(label.with_mut(|arm| arm.is_none()), true);
}

#[test]
fn asking_once_never_waits() {
    assert_eq!(PollOnce(Poll::Ready(1)).poll(), Poll::Ready(Poll::Ready(1)));
    assert_eq!(PollOnce(Poll::<i32>::Pending).poll(), Poll::Ready(Poll::Pending));
    assert_eq!(PollNextOnce(Poll::Ready(Some(1))).poll(), Poll::Ready(Poll::Ready(Some(1))));
    assert_eq!(PollNextOnce(Poll::Ready(None::<i32>)).poll(), Poll::Ready(Poll::Ready(None)));
    assert_eq!(PollNextOnce(Poll::<Option<i32>>::Pending).poll(), Poll::Ready(Poll::Pending));
}

#[test]
fn a_future_becomes_its_mapped_output_once() {
    let mut arm: MaybeDone<&str, i32> = MaybeDone::Future("future");
    assert!(!arm.is_finished());
    assert_eq!(arm.take_output(), None);
    assert_eq!(arm.poll_map(Poll::<i32>::Pending, |x| x + 1), Poll::Pending);
    assert!(!arm.is_finished());
    assert_eq!(arm.poll_map(Poll::Ready(41), |x| x + 1), Poll::Ready(()));
    assert!(arm.is_finished());
    // A finished arm is not cancelled.
    arm.cancel_if_not_finished();
    assert_eq!(arm.take_output(), Some(42));
    assert_eq!(arm.take_output(), None);
    assert!(arm.is_finished());
}

#[test]
fn a_cancelled_future_has_no_output() {
    let mut arm: MaybeDone<&str, i32> = MaybeDone::Future("future");
    arm.cancel_if_not_finished();
    assert!(arm.is_finished());
    assert_eq!(arm.take_output(), None);
}

#[test]
fn a_stream_is_polled_until_it_has_no_item() {
    let mut arm = MaybeDoneStream::Stream("stream");
    let answers = vec![Poll::Ready(Some(1)), Poll::Ready(Some(2)), Poll::Pending, Poll::Ready(Some(9))];
    assert_eq!(arm.poll_for_each(answers), (vec![1, 2], Poll::Pending));
    assert!(!arm.is_finished());
    let answers = vec![Poll::Ready(Some(3)), Poll::Ready(None), Poll::Ready(Some(9))];
    assert_eq!(arm.poll_for_each(answers), (vec![3], Poll::Ready(())));
    assert!(arm.is_finished());
}

#[test]
fn a_stream_answers_one_poll_at_a_time() {
    let mut arm = MaybeDoneStream::Stream("stream");
    assert!(matches!(arm.accept(Poll::Ready(Some(1))), ForEach::Item(1)));
    assert!(matches!(arm.accept(Poll::<Option<i32>>::Pending), ForEach::Stop(Poll::Pending)));
    assert!(!arm.is_finished());
    assert!(matches!(arm.accept(Poll::Ready(None::<i32>)), ForEach::Stop(Poll::Ready(()))));
    assert!(arm.is_finished());
}

#[test]
fn a_stream_is_cancelled() {
    let mut arm = MaybeDoneStream::Stream("stream");
    arm.cancel_if_not_finished();
    assert!(arm.is_finished());
    arm.cancel_if_not_finished();
    assert!(arm.is_finished());
}

#[test]
fn calls_hand_on_what_the_stream_yields() {
    let mut arm = MaybeDoneStream::Stream("stream");
    let mut seen = Vec::new();
    let calls = [
        vec![Poll::Pending],
        vec![Poll::Ready(Some(1)), Poll::Ready(Some(2)), Poll::Pending],
        vec![Poll::Pending],
        vec![Poll::Ready(Some(3)), Poll::Ready(None)],
    ];
    let last = calls.len() - 1;
    for (i, answers) in calls.into_iter().enumerate() {
        let (items, done) = arm.poll_for_each(answers);
        seen.extend(items);
        assert_eq!(arm.is_finished(), i == last);
        assert_eq!(done == Poll::Ready(()), i == last);
    }
    assert_eq!(seen, [1, 2, 3]);
}
