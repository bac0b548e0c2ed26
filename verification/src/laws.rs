//! What holds of every join.

use vstd::prelude::*;

use crate::driver::{self, Action, ArmState, BodyKind, BodyPoll, JoinView, Output, Phase};
use crate::lemmas;
use crate::poll::Poll;
use crate::shape::{ArmShape, Kind};

verus! {

/// A step of a join keeps everything that holds of a join at all times.
pub proof fn step_keeps_wf<V>(s: JoinView<V>)
    requires
        s.wf(),
    ensures
        s.step().0.wf(),
{
    let next = s.step().0;
    lemmas::lemma_counts_bounded(s.arms);
    match s.phase {
        Phase::Top => {
            lemmas::lemma_counts_agree(s.arms, next.arms);
        },
        Phase::Poll(i) => {
            if i <= s.arms.len() {
                lemmas::lemma_first_pollable(s, i as int);
            }
        },
        Phase::Drop | Phase::Sweep => {
            lemmas::lemma_first_to_drop(s);
            let j = s.first_to_drop();
            if j < s.arms.len() {
                lemmas::lemma_over_count_update(s.arms, j, s.arms[j].after_drop());
            }
        },
        Phase::Bodies => {
            lemmas::lemma_first_startable(s);
            if s.body is None && s.first_startable() < s.arms.len() {
                let j = s.first_startable();
                lemmas::lemma_over_count_update(s.arms, j, next.arms[j]);
            }
        },
        _ => {},
    }
}

/// An answer of a future keeps everything that holds of a join at all times.
pub proof fn future_polled_keeps_wf<V>(s: JoinView<V>, answer: Poll<V>)
    requires
        s.wf(),
    ensures
        s.future_polled(answer).wf(),
{
    if let Phase::Polling(j) = s.phase {
        let next = s.future_polled(answer);
        lemmas::lemma_over_count_update(s.arms, j as int, next.arms[j as int]);
        assert(next.arms =~= s.arms.update(j as int, next.arms[j as int]));
        lemmas::lemma_counts_bounded(next.arms);
    }
}

/// An answer of a stream keeps everything that holds of a join at all times.
pub proof fn stream_polled_keeps_wf<V>(s: JoinView<V>, answer: Poll<Option<V>>)
    requires
        s.wf(),
    ensures
        s.stream_polled(answer).wf(),
{
    if let Phase::Polling(j) = s.phase {
        let next = s.stream_polled(answer);
        lemmas::lemma_over_count_update(s.arms, j as int, next.arms[j as int]);
        assert(next.arms =~= s.arms.update(j as int, next.arms[j as int]));
        lemmas::lemma_counts_bounded(next.arms);
    }
}

/// An answer of the running body keeps everything that holds of a join at all times.
pub proof fn body_polled_keeps_wf<V>(s: JoinView<V>, answer: BodyPoll<V>)
    requires
        s.wf(),
    ensures
        s.body_polled(answer).wf(),
{
    if let (Phase::PollingBody, Some(body)) = (s.phase, s.body) {
        let next = s.body_polled(answer);
        let i = body.arm as int;
        lemmas::lemma_over_count_update(s.arms, i, next.arms[i]);
        assert(next.arms =~= s.arms.update(i, next.arms[i]));
    }
}

/// A cancellation, whenever it comes, keeps everything that holds of a join at all times. In
/// particular the count goes up exactly when an arm that is waited for was not over before.
pub proof fn cancel_keeps_wf<V>(s: JoinView<V>, i: int)
    requires
        s.wf(),
        0 <= i < s.arms.len(),
        s.arms[i].shape.labeled,
    ensures
        s.cancel(i).wf(),
{
    let next = s.cancel(i);
    lemmas::lemma_over_count_update(s.arms, i, next.arms[i]);
    lemmas::lemma_counts_bounded(next.arms);
    lemmas::lemma_counts_bounded(s.arms);
}

/// When a join is done, every arm that is waited for and was not cancelled has its value.
pub proof fn done_has_values<V>(s: JoinView<V>)
    requires
        s.wf(),
        s.phase == Phase::Done,
    ensures
        forall|i: int|
            0 <= i < s.arms.len() && !(#[trigger] s.arms[i]).shape.is_maybe && !s.arms[i].cancelled
                && s.arms[i].shape.spec_has_value() ==> s.arms[i].output is Some,
{
    lemmas::lemma_counts_bounded(s.arms);
}

/// Something that happens to a join.
pub enum Event<V> {
    /// It takes a step.
    Step,
    /// The future that is being polled answers.
    Future(Poll<V>),
    /// The stream that is being polled answers.
    Stream(Poll<Option<V>>),
    /// The running body answers.
    Body(BodyPoll<V>),
    /// An arm is cancelled by its label.
    Cancel(int),
}

/// Whether the event can happen: only an arm with a label can be cancelled.
pub open spec fn possible<V>(s: JoinView<V>, event: Event<V>) -> bool {
    match event {
        Event::Cancel(i) => 0 <= i < s.arms.len() && s.arms[i].shape.labeled,
        _ => true,
    }
}

/// The state after the event.
pub open spec fn after<V>(s: JoinView<V>, event: Event<V>) -> JoinView<V> {
    match event {
        Event::Step => s.step().0,
        Event::Future(answer) => s.future_polled(answer),
        Event::Stream(answer) => s.stream_polled(answer),
        Event::Body(answer) => s.body_polled(answer),
        Event::Cancel(i) => s.cancel(i),
    }
}

/// What the caller is told to do by the event.
pub open spec fn action<V>(s: JoinView<V>, event: Event<V>) -> Option<Action<V>> {
    match event {
        Event::Step => s.step().1,
        _ => None,
    }
}

/// The state after the events, one after the other.
pub open spec fn run<V>(s: JoinView<V>, events: Seq<Event<V>>) -> JoinView<V>
    decreases events.len(),
{
    if events.len() == 0 {
        s
    } else {
        after(run(s, events.drop_last()), events.last())
    }
}

/// Whether the events can happen, one after the other.
pub open spec fn possible_run<V>(s: JoinView<V>, events: Seq<Event<V>>) -> bool
    decreases events.len(),
{
    events.len() == 0 || {
        &&& possible_run(s, events.drop_last())
        &&& possible(run(s, events.drop_last()), events.last())
    }
}

/// Whatever happens to a join, what holds of it at all times goes on holding, and its arms keep
/// their number and their shapes.
pub proof fn event_keeps_wf<V>(s: JoinView<V>, event: Event<V>)
    requires
        s.wf(),
        possible(s, event),
    ensures
        after(s, event).wf(),
        after(s, event).arms.len() == s.arms.len(),
        forall|i: int|
            0 <= i < s.arms.len() ==> (#[trigger] after(s, event).arms[i]).shape == s.arms[i].shape,
{
    match event {
        Event::Step => {
            step_keeps_wf(s);
            lemmas::lemma_first_to_drop(s);
            lemmas::lemma_first_startable(s);
        },
        Event::Future(answer) => future_polled_keeps_wf(s, answer),
        Event::Stream(answer) => stream_polled_keeps_wf(s, answer),
        Event::Body(answer) => body_polled_keeps_wf(s, answer),
        Event::Cancel(i) => cancel_keeps_wf(s, i),
    }
}

/// Whatever happens to a join, in any order, what holds of it at all times goes on holding, and
/// its arms keep their number and their shapes.
pub proof fn run_keeps_wf<V>(s: JoinView<V>, events: Seq<Event<V>>)
    requires
        s.wf(),
        possible_run(s, events),
    ensures
        run(s, events).wf(),
        run(s, events).arms.len() == s.arms.len(),
        forall|i: int|
            0 <= i < s.arms.len() ==> (#[trigger] run(s, events).arms[i]).shape == s.arms[i].shape,
    decreases events.len(),
{
    if events.len() > 0 {
        run_keeps_wf(s, events.drop_last());
        event_keeps_wf(run(s, events.drop_last()), events.last());
    }
}

/// Once nothing is left to wait for, nothing will ever be left to wait for again. The number of
/// arms that are over never goes down.
pub proof fn count_never_drops<V>(s: JoinView<V>, event: Event<V>)
    requires
        s.wf(),
        possible(s, event),
    ensures
        s.count <= after(s, event).count,
        s.definitely_finished() ==> after(s, event).definitely_finished(),
{
    let next = after(s, event);
    event_keeps_wf(s, event);
    lemmas::lemma_counts_bounded(s.arms);
    lemmas::lemma_counts_bounded(next.arms);
    lemmas::lemma_first_to_drop(s);
    lemmas::lemma_first_startable(s);
    lemmas::lemma_definite_count_shapes(s.arms, next.arms);
    if let Phase::Polling(j) = s.phase {
        lemmas::lemma_room_to_end(s, j as int);
    }
}

/// No future or stream is left to wait for exactly when that of each arm that the join waits for
/// has finished, or the arm has been cancelled by its label. However often and in whatever order
/// that happens, the arm counts once: the count is the number of such arms.
pub proof fn finished_when_each_is_over<V>(s: JoinView<V>)
    requires
        s.wf(),
    ensures
        s.count == driver::over_count(s.arms),
        forall|i: int|
            0 <= i < s.arms.len() && !(#[trigger] s.arms[i]).shape.is_maybe ==> s.arms[i].over()
                == (!s.arms[i].live || s.arms[i].cancelled),
        s.definitely_finished() <==> forall|i: int|
            0 <= i < s.arms.len() && !(#[trigger] s.arms[i]).shape.is_maybe ==> !s.arms[i].live
                || s.arms[i].cancelled,
{
    lemmas::lemma_counts_bounded(s.arms);
    assert forall|i: int| 0 <= i < s.arms.len() && !(#[trigger] s.arms[i]).shape.is_maybe implies
        s.arms[i].over() == (!s.arms[i].live || s.arms[i].cancelled) by {
        assert(s.arms[i].wf());
    }
    if forall|i: int|
        0 <= i < s.arms.len() && !(#[trigger] s.arms[i]).shape.is_maybe ==> !s.arms[i].live
            || s.arms[i].cancelled {
        lemmas::lemma_all_over(s.arms);
    }
}

/// A join that has ended stays ended, whatever happens: once it is done it goes on saying so, and
/// once a body has returned, nothing is left to do but to return.
pub proof fn end_is_for_good<V>(s: JoinView<V>, events: Seq<Event<V>>)
    requires
        s.wf(),
        possible_run(s, events),
        s.phase == Phase::Done || s.phase == Phase::Returned,
    ensures
        run(s, events).phase == s.phase,
        run(s, events).step().1 == s.step().1,
    decreases events.len(),
{
    if events.len() > 0 {
        end_is_for_good(s, events.drop_last());
    }
}

proof fn lemma_gone_stays<V>(s: JoinView<V>, event: Event<V>, i: int)
    requires
        s.wf(),
        possible(s, event),
        0 <= i < s.arms.len(),
        s.gone(i),
    ensures
        after(s, event).gone(i),
{
    event_keeps_wf(s, event);
    count_never_drops(s, event);
    lemmas::lemma_first_to_drop(s);
    lemmas::lemma_first_startable(s);
}

/// A cancellation is for good: an arm that is cancelled, by its label or because it is a "maybe"
/// arm and nothing is left to wait for, stays so whatever happens.
pub proof fn gone_is_for_good<V>(s: JoinView<V>, events: Seq<Event<V>>, i: int)
    requires
        s.wf(),
        possible_run(s, events),
        0 <= i < s.arms.len(),
        s.gone(i),
    ensures
        run(s, events).gone(i),
    decreases events.len(),
{
    if events.len() > 0 {
        let prev = run(s, events.drop_last());
        gone_is_for_good(s, events.drop_last(), i);
        run_keeps_wf(s, events.drop_last());
        lemma_gone_stays(prev, events.last(), i);
    }
}

/// Nobody is polled in vain: an arm is polled only while it is there and not cancelled, and while
/// something is left to wait for.
pub proof fn polls_only_what_is_needed<V>(s: JoinView<V>, j: usize)
    requires
        s.wf(),
        s.step().1 == Some(Action::<V>::PollArm(j)),
    ensures
        j < s.arms.len(),
        s.arms[j as int].live,
        !s.gone(j as int),
        !s.definitely_finished(),
{
    if let Phase::Poll(i) = s.phase {
        if i <= s.arms.len() {
            lemmas::lemma_first_pollable(s, i as int);
        }
    }
}

/// A body runs as soon as it can: no arm is polled while a body waits to run, unless another body
/// is running.
pub proof fn bodies_go_before_polls<V>(s: JoinView<V>, j: usize)
    requires
        s.wf(),
        s.step().1 == Some(Action::<V>::PollArm(j)),
        s.body is None,
    ensures
        s.nothing_startable(),
{
}

/// An arm that is cancelled is never polled again, and neither is its body, whatever happens: if a
/// body of it is started at all, it is dropped in the next step.
pub proof fn cancelled_arm_is_never_polled<V>(s: JoinView<V>, events: Seq<Event<V>>, i: usize)
    requires
        s.wf(),
        possible_run(s, events),
        i < s.arms.len(),
        s.gone(i as int),
    ensures
        run(s, events).step().1 != Some(Action::<V>::PollArm(i)),
        run(s, events).step().1 != Some(Action::<V>::PollBody(i)),
        ({
            let (next, action) = run(s, events).step();
            action == Some(Action::<V>::StartFinally(i)) || (action matches Some(
                Action::StartBody(j, _),
            ) && j == i) ==> next.step().1 == Some(Action::<V>::DropBody(i))
        }),
{
    let last = run(s, events);
    gone_is_for_good(s, events, i as int);
    run_keeps_wf(s, events);
    if last.step().1 == Some(Action::<V>::PollArm(i)) {
        polls_only_what_is_needed(last, i);
    }
    lemma_gone_stays(last, Event::Step, i as int);
    lemmas::lemma_first_startable(last);
}

/// Once nothing is left to wait for, no arm is polled any more, whatever happens.
pub proof fn finished_join_polls_no_arm<V>(s: JoinView<V>, events: Seq<Event<V>>)
    requires
        s.wf(),
        possible_run(s, events),
        s.definitely_finished(),
    ensures
        run(s, events).definitely_finished(),
        !(run(s, events).step().1 matches Some(Action::PollArm(_))),
    decreases events.len(),
{
    run_keeps_wf(s, events);
    if events.len() > 0 {
        finished_join_polls_no_arm(s, events.drop_last());
        run_keeps_wf(s, events.drop_last());
        count_never_drops(run(s, events.drop_last()), events.last());
    }
    if let Some(Action::PollArm(j)) = run(s, events).step().1 {
        polls_only_what_is_needed(run(s, events), j);
    }
}

/// A join waits only when it has to, and lets go of what it can: when it waits, something is left
/// to wait for or a body is running; nothing that is cancelled is still held, neither a future, a
/// stream, an item nor a body; every future or stream that is held has registered a wakeup, or has
/// given an item that waits for the body that is running.
pub proof fn waits_with_everyone_registered<V>(s: JoinView<V>)
    requires
        s.wf(),
        s.step().1 == Some(Action::<V>::Yield),
    ensures
        !s.definitely_finished() || s.body is Some,
        !s.body_gone(),
        forall|i: int|
            0 <= i < s.arms.len() && s.gone(i) ==> !(#[trigger] s.arms[i]).live && s.arms[i].item
                is None,
        forall|i: int|
            0 <= i < s.arms.len() && (#[trigger] s.arms[i]).live ==> s.arms[i].registered || (
            s.arms[i].item is Some && s.body is Some),
{
    lemmas::lemma_first_to_drop(s);
    assert forall|i: int| 0 <= i < s.arms.len() && s.gone(i) implies !(#[trigger] s.arms[i]).live
        && s.arms[i].item is None by {
        assert(!s.must_drop(i));
    }
}

/// A join gets to where it may wait with a body running only when that body, just polled, has
/// answered that it waits itself, and so has registered a wakeup.
pub proof fn body_waits_before_the_join_does<V>(s: JoinView<V>, event: Event<V>)
    requires
        s.wf(),
        possible(s, event),
        s.phase != Phase::Sweep,
        after(s, event).phase == Phase::Sweep,
        after(s, event).body is Some,
    ensures
        s.phase == Phase::PollingBody,
        event == Event::Body(BodyPoll::<V>::Pending),
{
}

/// When a join ends, nothing is running and nothing is held, and an arm lacks its value only if it
/// is a "maybe" arm or was cancelled.
pub proof fn ends_with_nothing_held<V>(s: JoinView<V>)
    requires
        s.wf(),
        s.phase == Phase::Sweep,
        s.step().1 == Some(Action::<V>::Finish),
    ensures
        s.definitely_finished(),
        s.body is None,
        forall|i: int|
            0 <= i < s.arms.len() ==> !(#[trigger] s.arms[i]).live && s.arms[i].item is None
                && !s.arms[i].should_run_finally,
        forall|i: int|
            0 <= i < s.arms.len() && !(#[trigger] s.arms[i]).shape.is_maybe && !s.arms[i].cancelled
                && s.arms[i].shape.spec_has_value() ==> s.arms[i].output is Some,
{
    lemmas::lemma_first_to_drop(s);
    lemmas::lemma_counts_bounded(s.arms);
    step_keeps_wf(s);
    done_has_values(s.step().0);
    assert forall|i: int| 0 <= i < s.arms.len() implies !(#[trigger] s.arms[i]).live by {
        assert(!s.must_drop(i));
    }
}

/// Only one body runs at a time: a body starts only when none is running.
pub proof fn one_body_at_a_time<V>(s: JoinView<V>)
    requires
        s.wf(),
        s.step().1 is Some,
        s.step().1->0 is StartBody || s.step().1->0 is StartFinally,
    ensures
        s.body is None,
        s.step().0.body is Some,
{
}

/// The value of an arm, once it is there, stays what it is.
pub proof fn value_is_kept<V>(s: JoinView<V>, events: Seq<Event<V>>, i: int)
    requires
        s.wf(),
        possible_run(s, events),
        0 <= i < s.arms.len(),
        s.arms[i].output is Some,
    ensures
        run(s, events).arms[i].output == s.arms[i].output,
    decreases events.len(),
{
    if events.len() > 0 {
        let prev = run(s, events.drop_last());
        value_is_kept(s, events.drop_last(), i);
        run_keeps_wf(s, events.drop_last());
        lemmas::lemma_first_to_drop(prev);
        lemmas::lemma_first_startable(prev);
    }
}

/// The value that the event gives arm `i`, if it gives one: the output of a future without a body,
/// or the value of the body of a future or of a `finally` expression.
pub open spec fn value_given<V>(s: JoinView<V>, event: Event<V>, i: usize) -> Seq<V> {
    let shape = s.arms[i as int].shape;
    match event {
        Event::Future(Poll::Ready(value)) => if s.phase == Phase::Polling(i) && shape.kind
            == Kind::Future {
            seq![value]
        } else {
            seq![]
        },
        Event::Body(BodyPoll::Completed(value)) => if s.phase == Phase::PollingBody && (s.body
            matches Some(body) && body.arm == i && (body.kind == BodyKind::Finally
            || !shape.spec_is_stream())) {
            seq![value]
        } else {
            seq![]
        },
        _ => seq![],
    }
}

/// All values that the events give arm `i`, in order.
pub open spec fn all_values_given<V>(s: JoinView<V>, events: Seq<Event<V>>, i: usize) -> Seq<V>
    decreases events.len(),
{
    if events.len() == 0 {
        seq![]
    } else {
        all_values_given(s, events.drop_last(), i) + value_given(
            run(s, events.drop_last()),
            events.last(),
            i,
        )
    }
}

/// The value of an arm, if it is there.
pub open spec fn value_held<V>(arm: ArmState<V>) -> Seq<V> {
    match arm.output {
        Some(value) => seq![value],
        None => seq![],
    }
}

proof fn lemma_step_keeps_values<V>(s: JoinView<V>, i: int)
    requires
        s.wf(),
        0 <= i < s.arms.len(),
    ensures
        s.step().0.arms[i].output == s.arms[i].output,
{
    lemmas::lemma_first_to_drop(s);
    lemmas::lemma_first_startable(s);
}

proof fn lemma_event_gives_value<V>(s: JoinView<V>, event: Event<V>, i: usize)
    requires
        s.wf(),
        possible(s, event),
        i < s.arms.len(),
    ensures
        value_held(after(s, event).arms[i as int]) == value_held(s.arms[i as int]) + value_given(
            s,
            event,
            i,
        ),
{
    let arm = s.arms[i as int];
    assert(arm.wf());
    match event {
        Event::Step => {
            lemma_step_keeps_values(s, i as int);
            assert(value_held(arm) + Seq::<V>::empty() =~= value_held(arm));
        },
        _ => {
            assert(value_held(after(s, event).arms[i as int]) =~= value_held(arm) + value_given(
                s,
                event,
                i,
            ));
        },
    }
}

/// The value of an arm is the value that its future, its body or its `finally` expression gave,
/// and no arm gives more than one.
pub proof fn value_is_what_was_given<V>(s: JoinView<V>, events: Seq<Event<V>>, i: usize)
    requires
        s.wf(),
        possible_run(s, events),
        i < s.arms.len(),
        s.arms[i as int].output is None,
    ensures
        all_values_given(s, events, i) == value_held(run(s, events).arms[i as int]),
    decreases events.len(),
{
    if events.len() > 0 {
        value_is_what_was_given(s, events.drop_last(), i);
        run_keeps_wf(s, events.drop_last());
        lemma_event_gives_value(run(s, events.drop_last()), events.last(), i);
    }
}

proof fn lemma_initial_counts<V>(arms: Seq<ArmState<V>>)
    requires
        forall|i: int| 0 <= i < arms.len() ==> !(#[trigger] arms[i]).over(),
    ensures
        driver::over_count(arms) == 0,
    decreases arms.len(),
{
    if arms.len() > 0 {
        lemma_initial_counts(arms.drop_last());
    }
}

/// What holds of a join at all times holds at its start.
pub proof fn initial_is_wf<V>(shapes: Seq<ArmShape>)
    requires
        shapes.len() <= usize::MAX,
    ensures
        JoinView::<V>::initial(shapes).wf(),
{
    let s = JoinView::<V>::initial(shapes);
    lemma_initial_counts(s.arms);
    lemmas::lemma_counts_bounded(s.arms);
}

/// A join that has run to its end returns for each arm what the events gave that arm, in the place
/// of the arm and in the form that the arm calls for. A stream without `finally` gives `()`. An
/// arm that can be cancelled gives `Some` of the value that its future, its body or its `finally`
/// expression came to, and `None` if it came to none. Any other arm gives that value, and has one.
/// An arm that is waited for and was never cancelled has a value.
pub proof fn outputs_are_what_was_given<V>(
    shapes: Seq<ArmShape>,
    events: Seq<Event<V>>,
    i: usize,
)
    requires
        shapes.len() <= usize::MAX,
        possible_run(JoinView::<V>::initial(shapes), events),
        run(JoinView::<V>::initial(shapes), events).phase == Phase::Done,
        i < shapes.len(),
    ensures
        ({
            let start = JoinView::<V>::initial(shapes);
            let end = run(start, events);
            let shape = shapes[i as int];
            let given = all_values_given(start, events, i);
            let output = driver::output_of(end.arms[i as int]);
            &&& end.arms.len() == shapes.len()
            &&& given.len() <= 1
            &&& shape.kind == Kind::Stream ==> output == Output::<V>::Unit
            &&& shape.kind != Kind::Stream && (shape.is_maybe || shape.labeled) ==> output == if given.len()
                == 0 {
                Output::Maybe(None)
            } else {
                Output::Maybe(Some(given[0]))
            }
            &&& shape.kind != Kind::Stream && !shape.is_maybe && !shape.labeled ==> given.len() == 1
                && output == Output::Value(given[0])
            &&& shape.kind != Kind::Stream && !shape.is_maybe && !end.arms[i as int].cancelled
                ==> given.len() == 1
        }),
{
    let start = JoinView::<V>::initial(shapes);
    initial_is_wf::<V>(shapes);
    run_keeps_wf(start, events);
    value_is_what_was_given(start, events, i);
    done_has_values(run(start, events));
    assert(start.arms[i as int].shape == shapes[i as int]);
    assert(run(start, events).arms[i as int].wf());
}

proof fn lemma_cancelled_by_an_event<V>(s: JoinView<V>, events: Seq<Event<V>>, i: int)
    requires
        s.wf(),
        possible_run(s, events),
        0 <= i < s.arms.len(),
        !s.arms[i].cancelled,
        forall|k: int| 0 <= k < events.len() ==> #[trigger] events[k] != Event::<V>::Cancel(i),
    ensures
        !run(s, events).arms[i].cancelled,
    decreases events.len(),
{
    if events.len() > 0 {
        let prev = run(s, events.drop_last());
        assert forall|k: int| 0 <= k < events.drop_last().len() implies #[trigger] events.drop_last()[k]
            != Event::<V>::Cancel(i) by {
            assert(events[k] != Event::<V>::Cancel(i));
        }
        lemma_cancelled_by_an_event(s, events.drop_last(), i);
        run_keeps_wf(s, events.drop_last());
        assert(events.last() == events[events.len() - 1]);
        lemmas::lemma_first_to_drop(prev);
        lemmas::lemma_first_startable(prev);
    }
}

/// An arm that has a value and is waited for, and that no event cancels, has its value in the
/// output: `Some` of it where the arm has a label, else the value itself.
pub proof fn uncancelled_arm_gives_its_value<V>(
    shapes: Seq<ArmShape>,
    events: Seq<Event<V>>,
    i: usize,
)
    requires
        shapes.len() <= usize::MAX,
        possible_run(JoinView::<V>::initial(shapes), events),
        run(JoinView::<V>::initial(shapes), events).phase == Phase::Done,
        i < shapes.len(),
        shapes[i as int].kind != Kind::Stream,
        !shapes[i as int].is_maybe,
        forall|k: int|
            0 <= k < events.len() ==> #[trigger] events[k] != Event::<V>::Cancel(i as int),
    ensures
        ({
            let start = JoinView::<V>::initial(shapes);
            let given = all_values_given(start, events, i);
            let output = driver::output_of(run(start, events).arms[i as int]);
            &&& given.len() == 1
            &&& output == if shapes[i as int].labeled {
                Output::Maybe(Some(given[0]))
            } else {
                Output::Value(given[0])
            }
        }),
{
    outputs_are_what_was_given(shapes, events, i);
    initial_is_wf::<V>(shapes);
    lemma_cancelled_by_an_event(JoinView::<V>::initial(shapes), events, i as int);
}

/// Cancelling an arm twice is the same as cancelling it once.
pub proof fn cancel_twice_is_cancel_once<V>(s: JoinView<V>, i: int)
    requires
        s.wf(),
        possible(s, Event::Cancel(i)),
    ensures
        s.cancel(i).cancel(i) == s.cancel(i),
{
    assert(s.cancel(i).cancel(i).arms =~= s.cancel(i).arms);
}

/// In whatever order two arms are cancelled, the outcome is the same.
pub proof fn cancels_commute<V>(s: JoinView<V>, i: int, j: int)
    requires
        s.wf(),
        possible(s, Event::Cancel(i)),
        possible(s, Event::Cancel(j)),
    ensures
        s.cancel(i).cancel(j) == s.cancel(j).cancel(i),
{
    assert(s.cancel(i).cancel(j).arms =~= s.cancel(j).cancel(i).arms);
}

/// Cancelling an arm whose future or stream has finished does not change how many are left to
/// wait for.
pub proof fn cancel_after_end_does_not_count<V>(s: JoinView<V>, i: int)
    requires
        s.wf(),
        possible(s, Event::Cancel(i)),
        !s.arms[i].live,
    ensures
        s.cancel(i).count == s.count,
{
}

/// The item that the event brings for the body of arm `i`, if it brings one.
pub open spec fn given<V>(s: JoinView<V>, event: Event<V>, i: usize) -> Seq<V> {
    if s.phase == Phase::Polling(i) {
        match event {
            Event::Future(Poll::Ready(value)) => if s.arms[i as int].shape.kind
                == Kind::FutureBody {
                seq![value]
            } else {
                seq![]
            },
            Event::Stream(Poll::Ready(Some(item))) => if s.arms[i as int].shape.spec_is_stream() {
                seq![item]
            } else {
                seq![]
            },
            _ => seq![],
        }
    } else {
        seq![]
    }
}

/// The item on which the event starts the body of arm `i`, if it starts it.
pub open spec fn started<V>(s: JoinView<V>, event: Event<V>, i: usize) -> Seq<V> {
    match action(s, event) {
        Some(Action::StartBody(j, item)) => if i == j {
            seq![item]
        } else {
            seq![]
        },
        _ => seq![],
    }
}

/// All items that the events bring for the body of arm `i`, in order.
pub open spec fn all_given<V>(s: JoinView<V>, events: Seq<Event<V>>, i: usize) -> Seq<V>
    decreases events.len(),
{
    if events.len() == 0 {
        seq![]
    } else {
        all_given(s, events.drop_last(), i) + given(
            run(s, events.drop_last()),
            events.last(),
            i,
        )
    }
}

/// All items on which the events start the body of arm `i`, in order.
pub open spec fn all_started<V>(s: JoinView<V>, events: Seq<Event<V>>, i: usize) -> Seq<V>
    decreases events.len(),
{
    if events.len() == 0 {
        seq![]
    } else {
        all_started(s, events.drop_last(), i) + started(
            run(s, events.drop_last()),
            events.last(),
            i,
        )
    }
}

/// The item of the arm that waits for the body, if there is one.
pub open spec fn waiting<V>(arm: ArmState<V>) -> Seq<V> {
    match arm.item {
        Some(item) => seq![item],
        None => seq![],
    }
}

/// The body of an arm runs for each item, once and in order: as long as the arm is not cancelled,
/// the items that the arm has given are those on which its body was started, followed by the one
/// that waits, if any. If the arm is cancelled, its body was started on the first of its items.
pub proof fn every_item_reaches_its_body<V>(s: JoinView<V>, events: Seq<Event<V>>, i: usize)
    requires
        s.wf(),
        possible_run(s, events),
        i < s.arms.len(),
        s.arms[i as int].item is None,
    ensures
        !run(s, events).gone(i as int) ==> all_given(s, events, i) == all_started(s, events, i)
            + waiting(run(s, events).arms[i as int]),
        all_started(s, events, i).is_prefix_of(all_given(s, events, i)),
{
    items_are_accounted_for(s, events, i);
}

/// Whether the items that arm `i` has given are accounted for: as long as the arm is not cancelled,
/// each has reached the body or waits for it.
spec fn accounted_for<V>(s: JoinView<V>, i: usize, given: Seq<V>, started: Seq<V>) -> bool {
    ||| given =~= started + waiting(s.arms[i as int])
    ||| {
        &&& s.gone(i as int)
        &&& s.arms[i as int].item is None
        &&& s.phase != Phase::Polling(i)
        &&& started.is_prefix_of(given)
    }
}

proof fn lemma_step_accounts<V>(
    s: JoinView<V>,
    i: usize,
    given_before: Seq<V>,
    started_before: Seq<V>,
)
    requires
        s.wf(),
        i < s.arms.len(),
        accounted_for(s, i, given_before, started_before),
    ensures
        accounted_for(
            s.step().0,
            i,
            given_before + given(s, Event::Step, i),
            started_before + started(s, Event::Step, i),
        ),
{
    if s.gone(i as int) {
        lemma_gone_stays(s, Event::Step, i as int);
        if s.step().1 == Some(Action::<V>::PollArm(i)) {
            polls_only_what_is_needed(s, i);
        }
    }
    lemmas::lemma_first_to_drop(s);
    lemmas::lemma_first_startable(s);
    assert(given_before + given(s, Event::Step, i) =~= given_before);
    if started(s, Event::Step, i).len() == 0 {
        assert(started_before + started(s, Event::Step, i) =~= started_before);
    }
}

proof fn lemma_answer_accounts<V>(
    s: JoinView<V>,
    event: Event<V>,
    i: usize,
    given_before: Seq<V>,
    started_before: Seq<V>,
)
    requires
        s.wf(),
        possible(s, event),
        !(event is Step),
        i < s.arms.len(),
        accounted_for(s, i, given_before, started_before),
    ensures
        accounted_for(
            after(s, event),
            i,
            given_before + given(s, event, i),
            started_before + started(s, event, i),
        ),
{
    if s.gone(i as int) {
        lemma_gone_stays(s, event, i as int);
    }
    assert(started_before + started(s, event, i) =~= started_before);
    if given(s, event, i).len() == 0 {
        assert(given_before + given(s, event, i) =~= given_before);
    }
}

proof fn items_are_accounted_for<V>(s: JoinView<V>, events: Seq<Event<V>>, i: usize)
    requires
        s.wf(),
        possible_run(s, events),
        i < s.arms.len(),
        s.arms[i as int].item is None,
    ensures
        accounted_for(
            run(s, events),
            i,
            all_given(s, events, i),
            all_started(s, events, i),
        ),
    decreases events.len(),
{
    if events.len() > 0 {
        let before = events.drop_last();
        items_are_accounted_for(s, before, i);
        run_keeps_wf(s, before);
        let (given, started) = (all_given(s, before, i), all_started(s, before, i));
        if events.last() is Step {
            lemma_step_accounts(run(s, before), i, given, started);
        } else {
            lemma_answer_accounts(run(s, before), events.last(), i, given, started);
        }
    }
}

/// A `finally` expression starts only after its stream has ended and every item of it has been
/// taken, and before the arm has a value. From then on it is not due any more.
pub proof fn finally_follows_the_stream<V>(s: JoinView<V>, i: usize)
    requires
        s.wf(),
        s.step().1 == Some(Action::<V>::StartFinally(i)),
    ensures
        i < s.arms.len(),
        s.arms[i as int].shape.spec_has_finally(),
        !s.arms[i as int].live,
        s.arms[i as int].item is None,
        s.arms[i as int].output is None,
        !s.step().0.arms[i as int].live,
        !s.step().0.arms[i as int].should_run_finally,
{
    lemmas::lemma_first_startable(s);
}

proof fn lemma_finally_stays_off<V>(s: JoinView<V>, event: Event<V>, i: int)
    requires
        s.wf(),
        possible(s, event),
        0 <= i < s.arms.len(),
        !s.arms[i].live,
        !s.arms[i].should_run_finally,
    ensures
        !after(s, event).arms[i].live,
        !after(s, event).arms[i].should_run_finally,
{
    if event is Step {
        lemmas::lemma_first_to_drop(s);
        lemmas::lemma_first_startable(s);
    }
}

/// A `finally` expression starts at most once: once the stream is gone and the expression is not
/// due, it never starts, whatever happens.
pub proof fn finally_starts_at_most_once<V>(s: JoinView<V>, events: Seq<Event<V>>, i: usize)
    requires
        s.wf(),
        possible_run(s, events),
        i < s.arms.len(),
        !s.arms[i as int].live,
        !s.arms[i as int].should_run_finally,
    ensures
        !run(s, events).arms[i as int].live,
        !run(s, events).arms[i as int].should_run_finally,
        run(s, events).step().1 != Some(Action::<V>::StartFinally(i)),
    decreases events.len(),
{
    run_keeps_wf(s, events);
    if events.len() > 0 {
        finally_starts_at_most_once(s, events.drop_last(), i);
        run_keeps_wf(s, events.drop_last());
        lemma_finally_stays_off(run(s, events.drop_last()), events.last(), i as int);
    }
    lemmas::lemma_first_startable(run(s, events));
}

/// How many more steps a join can take at most before it tells its caller to do something.
pub open spec fn silent_steps_left<V>(s: JoinView<V>) -> nat {
    let again: nat = if s.consumed {
        5
    } else {
        0
    };
    let rest: nat = if s.next < s.arms.len() {
        4
    } else {
        0
    };
    match s.phase {
        Phase::Sweep => 1 + rest + again,
        Phase::Bodies => if s.body is Some {
            0
        } else {
            2 + rest + again
        },
        Phase::Drop => 3 + rest + again,
        Phase::Poll(_) => 4 + again,
        Phase::Top => 5,
        _ => 0,
    }
}

/// A join does not spin: while no answer is due, each step that tells the caller nothing brings
/// the next instruction closer.
pub proof fn silent_steps_end<V>(s: JoinView<V>)
    requires
        s.wf(),
        !(s.phase is Polling),
        s.phase != Phase::PollingBody,
        s.step().1 is None,
    ensures
        silent_steps_left(s.step().0) < silent_steps_left(s),
{
}

/// A join that has settled stays so, whatever happens.
pub proof fn settled_is_for_good<V>(s: JoinView<V>, event: Event<V>)
    requires
        s.wf(),
        possible(s, event),
        s.settled(),
    ensures
        after(s, event).settled(),
{
    let next = after(s, event);
    event_keeps_wf(s, event);
    count_never_drops(s, event);
    lemmas::lemma_counts_bounded(s.arms);
    lemmas::lemma_first_to_drop(s);
    lemmas::lemma_first_startable(s);
    assert forall|i: int| 0 <= i < next.arms.len() implies !#[trigger] next.owes(i) by {
        assert(!s.owes(i));
        assert(s.arms[i].wf());
    }
}

/// A join that has settled waits for nothing more: it neither waits nor polls anything.
pub proof fn settled_join_does_not_wait<V>(s: JoinView<V>)
    requires
        s.wf(),
        s.settled(),
    ensures
        s.step().1 != Some(Action::<V>::Yield),
        !(s.step().1 matches Some(Action::PollArm(_))),
        !(s.step().1 matches Some(Action::PollBody(_))),
{
    if let Some(body) = s.body {
        assert(!s.owes(body.arm as int));
        assert(s.arms[body.arm as int].wf());
    }
}

/// How many more steps a join that has settled can take at most before it is done.
pub open spec fn steps_to_end<V>(s: JoinView<V>) -> nat {
    let body: nat = if s.body is Some {
        1
    } else {
        0
    };
    let rank: nat = match s.phase {
        Phase::Done => 0,
        Phase::Sweep => if s.body is Some {
            4
        } else {
            2
        },
        Phase::Bodies => 3,
        Phase::Drop => 5,
        Phase::Poll(_) => 6,
        _ => 7,
    };
    10 * (lemmas::weight(s.arms) + body) + rank
}

/// The state after this many steps.
pub open spec fn after_steps<V>(s: JoinView<V>, n: nat) -> JoinView<V>
    decreases n,
{
    if n == 0 {
        s
    } else {
        after_steps(s.step().0, (n - 1) as nat)
    }
}

/// Whether the join waits for no answer, and no body has returned.
pub open spec fn on_its_own<V>(s: JoinView<V>) -> bool {
    !(s.phase is Polling) && s.phase != Phase::PollingBody && s.phase != Phase::Returned
}

proof fn lemma_step_towards_end<V>(s: JoinView<V>)
    requires
        s.wf(),
        s.settled(),
        on_its_own(s),
        s.phase != Phase::Done,
    ensures
        steps_to_end(s.step().0) < steps_to_end(s),
        on_its_own(s.step().0),
{
    let next = s.step().0;
    lemmas::lemma_first_to_drop(s);
    lemmas::lemma_first_startable(s);
    if let Some(body) = s.body {
        assert(!s.owes(body.arm as int));
        assert(s.arms[body.arm as int].wf());
    }
    match s.phase {
        Phase::Top => {
            lemmas::lemma_weight_agrees(s.arms, next.arms);
        },
        Phase::Drop | Phase::Sweep => {
            let j = s.first_to_drop();
            if j < s.arms.len() {
                assert(s.must_drop(j));
                lemmas::lemma_weight_update(s.arms, j, s.arms[j].after_drop());
            }
        },
        Phase::Bodies => {
            let j = s.first_startable();
            if s.body is None && j < s.arms.len() {
                lemmas::lemma_weight_update(s.arms, j, next.arms[j]);
                assert(next.arms =~= s.arms.update(j, next.arms[j]));
            }
        },
        _ => {},
    }
}

proof fn lemma_done_steps<V>(s: JoinView<V>, n: nat)
    requires
        s.phase == Phase::Done,
    ensures
        after_steps(s, n).phase == Phase::Done,
    decreases n,
{
    if n > 0 {
        lemma_done_steps(s.step().0, (n - 1) as nat);
    }
}

/// A join ends as soon as it has settled: from then on, as long as no answer is due and no body
/// has returned, it needs nothing but its own steps to be done.
pub proof fn settled_join_ends<V>(s: JoinView<V>, n: nat)
    requires
        s.wf(),
        s.settled(),
        on_its_own(s),
        n >= steps_to_end(s),
    ensures
        after_steps(s, n).phase == Phase::Done,
    decreases n,
{
    if s.phase == Phase::Done {
        lemma_done_steps(s, n);
    } else {
        lemma_step_towards_end(s);
        step_keeps_wf(s);
        settled_is_for_good(s, Event::Step);
        settled_join_ends(s.step().0, (n - 1) as nat);
    }
}

/// A join ends only when it has settled.
pub proof fn only_a_settled_join_ends<V>(s: JoinView<V>)
    requires
        s.wf(),
        s.step().1 == Some(Action::<V>::Finish),
    ensures
        s.settled(),
{
}

} // verus!
