//! What holds of every join holds of the programs that expansions spell.

use vstd::prelude::*;

use crate::agreement;
use crate::agreement_laws;
use crate::driver::{Action, JoinView, Output, Phase};
use crate::laws::Event;
use crate::laws;
use crate::meaning::Reply;
use crate::meaning;
use crate::program;
use crate::shape::Kind;
use crate::syntax::JoinMeMaybeArm;
use crate::world::World;
use crate::world;

verus! {

proof fn lemma_run_on<V>(s: JoinView<V>, a: Seq<Event<V>>, b: Seq<Event<V>>)
    requires
        laws::possible_run(s, a),
        laws::possible_run(laws::run(s, a), b),
    ensures
        laws::possible_run(s, a + b),
        laws::run(s, a + b) == laws::run(laws::run(s, a), b),
    decreases b.len(),
{
    if b.len() == 0 {
        assert(a + b =~= a);
    } else {
        lemma_run_on(s, a, b.drop_last());
        assert((a + b).drop_last() =~= a + b.drop_last());
        assert((a + b).last() == b.last());
    }
}

proof fn lemma_one_event<V>(s: JoinView<V>, event: Event<V>)
    requires
        laws::possible(s, event),
    ensures
        laws::possible_run(s, seq![event]),
        laws::run(s, seq![event]) == laws::after(s, event),
{
    let events = seq![event];
    assert(events.drop_last() =~= Seq::empty());
    assert(events.last() == event);
    reveal_with_fuel(laws::run, 2);
    reveal_with_fuel(laws::possible_run, 2);
}

proof fn lemma_cancels<V>(s: JoinView<V>, cancels: Seq<usize>) -> (events: Seq<Event<V>>)
    requires
        s.wf(),
        forall|c: int|
            0 <= c < cancels.len() ==> (#[trigger] cancels[c]) < s.arms.len()
                && s.arms[cancels[c] as int].shape.labeled,
    ensures
        laws::possible_run(s, events),
        laws::run(s, events) == world::cancel_all(s, cancels),
    decreases cancels.len(),
{
    if cancels.len() == 0 {
        Seq::empty()
    } else {
        let before = cancels.drop_last();
        assert forall|c: int| 0 <= c < before.len() implies (#[trigger] before[c]) < s.arms.len()
            && s.arms[before[c] as int].shape.labeled by {
            assert(cancels[c] == before[c]);
        }
        let events = lemma_cancels(s, before);
        world::lemma_cancel_all(s, before);
        let i = cancels.last();
        assert(i == cancels[cancels.len() - 1]);
        let event = Event::<V>::Cancel(i as int);
        assert(world::cancel_all(s, before).arms[i as int].shape == s.arms[i as int].shape);
        lemma_one_event(world::cancel_all(s, before), event);
        lemma_run_on(s, events, seq![event]);
        events + seq![event]
    }
}

/// One step of a join among the replies of the world is made of events that can happen to it.
proof fn lemma_step_is_events<V>(w: World<V>) -> (events: Seq<Event<V>>)
    requires
        w.s.wf(),
        w.fair(),
    ensures
        laws::possible_run(w.s, events),
        laws::run(w.s, events) == w.advance().s,
{
    let s = w.s;
    let (t, action) = s.step();
    let step = seq![Event::<V>::Step];
    lemma_one_event(s, Event::<V>::Step);
    laws::event_keeps_wf(s, Event::<V>::Step);
    assert(t == laws::after(s, Event::<V>::Step));
    match action {
        Some(Action::PollArm(i)) => if w.replies.len() == 0 {
            step
        } else {
            let reply = w.replies[0];
            lemma_fair(w, t);
            let cancels = lemma_cancels(t, reply.cancels);
            let answer = if t.arms[i as int].shape.spec_is_stream() {
                Event::Stream(world::as_stream(reply.answer))
            } else {
                Event::Future(world::as_future(reply.answer))
            };
            lemma_one_event(world::cancel_all(t, reply.cancels), answer);
            lemma_run_on(t, cancels, seq![answer]);
            lemma_run_on(s, step, cancels + seq![answer]);
            step + (cancels + seq![answer])
        },
        Some(Action::PollBody(_)) => if w.replies.len() == 0 {
            step
        } else {
            let reply = w.replies[0];
            lemma_fair(w, t);
            let cancels = lemma_cancels(t, reply.cancels);
            let answer = Event::Body(world::as_body(reply.answer));
            lemma_one_event(world::cancel_all(t, reply.cancels), answer);
            lemma_run_on(t, cancels, seq![answer]);
            lemma_run_on(s, step, cancels + seq![answer]);
            step + (cancels + seq![answer])
        },
        Some(Action::Yield) => if w.replies.len() == 0 {
            step
        } else {
            lemma_fair(w, t);
            let cancels = lemma_cancels(t, w.replies[0].cancels);
            lemma_run_on(s, step, cancels);
            step + cancels
        },
        _ => step,
    }
}

proof fn lemma_fair<V>(w: World<V>, t: JoinView<V>)
    requires
        w.fair(),
        w.replies.len() > 0,
        t.arms.len() == w.s.arms.len(),
        forall|i: int|
            0 <= i < w.s.arms.len() ==> (#[trigger] t.arms[i]).shape == w.s.arms[i].shape,
    ensures
        forall|c: int|
            0 <= c < w.replies[0].cancels.len() ==> (#[trigger] w.replies[0].cancels[c])
                < t.arms.len() && t.arms[w.replies[0].cancels[c] as int].shape.labeled,
{
}

/// The steps of a join among the replies of the world are events that can happen to it, so that
/// everything that holds of every join holds there too.
pub proof fn steps_are_events<V>(w: World<V>, n: nat) -> (events: Seq<Event<V>>)
    requires
        w.s.wf(),
        w.fair(),
    ensures
        laws::possible_run(w.s, events),
        laws::run(w.s, events) == w.steps(n).s,
        w.steps(n).s.wf(),
        w.steps(n).fair(),
    decreases n,
{
    if n == 0 {
        Seq::empty()
    } else {
        let before = steps_are_events(w, (n - 1) as nat);
        let u = w.steps((n - 1) as nat);
        let events = lemma_step_is_events(u);
        world::lemma_advance_keeps_wf(u);
        lemma_run_on(w.s, before, events);
        before + events
    }
}

/// When the program that an expansion spells finishes, it gives one value for each arm, in order:
/// `()` for a stream without `finally`; for an arm that can be cancelled, `Some` of the value that
/// its future, its body or its `finally` expression came to, or `None`; else that value. An arm
/// that is waited for and was not cancelled has a value.
pub proof fn finished_expansion_gives_what_was_given<V>(
    arms: Seq<JoinMeMaybeArm>,
    replies: Seq<Reply<V>>,
) -> (events: Seq<Event<V>>)
    requires
        arms.len() <= usize::MAX,
        agreement_laws::labels_differ(arms),
        agreement_laws::fair(arms, replies),
        meaning::run(program::program(arms), meaning::blank(arms, replies)).flow is Finished,
    ensures
        ({
            let start = JoinView::<V>::initial(agreement_laws::shapes(arms));
            let end = laws::run(start, events);
            let ran = meaning::run(program::program(arms), meaning::blank(arms, replies));
            let outputs = ran.flow->Finished_0;
            &&& laws::possible_run(start, events)
            &&& end.phase == Phase::Done
            &&& outputs.len() == arms.len()
            &&& forall|i: int|
                0 <= i < arms.len() ==> {
                    let shape = (#[trigger] arms[i]).spec_shape();
                    let given = laws::all_values_given(start, events, i as usize);
                    let cancellable = shape.is_maybe || shape.labeled;
                    &&& given.len() <= 1
                    &&& shape.kind == Kind::Stream ==> outputs[i] == Output::<V>::Unit
                    &&& shape.kind != Kind::Stream && cancellable && given.len() == 0 ==> outputs[i]
                        == Output::<V>::Maybe(None)
                    &&& shape.kind != Kind::Stream && cancellable && given.len() == 1 ==> outputs[i]
                        == Output::Maybe(Some(given[0]))
                    &&& shape.kind != Kind::Stream && !cancellable ==> given.len() == 1
                        && outputs[i] == Output::Value(given[0])
                    &&& shape.kind != Kind::Stream && !shape.is_maybe && !end.arms[i].cancelled
                        ==> given.len() == 1
                }
        }),
{
    agreement_laws::expansion_does_as_the_state_machine(arms, replies);
    let shapes = agreement_laws::shapes(arms);
    let w = agreement_laws::start(arms, replies);
    let ran = meaning::run(program::program(arms), meaning::blank(arms, replies));
    let n = choose|n: nat| agreement::ended(ran, #[trigger] w.steps(n));
    laws::initial_is_wf::<V>(shapes);
    assert(w.fair()) by {
        agreement_laws::lemma_ready(arms, replies);
    }
    let events = steps_are_events(w, n);
    laws::run_keeps_wf(w.s, events);
    assert forall|i: int| 0 <= i < arms.len() implies ({
        let shape = (#[trigger] arms[i]).spec_shape();
        let given = laws::all_values_given(w.s, events, i as usize);
        let cancellable = shape.is_maybe || shape.labeled;
        let outputs = ran.flow->Finished_0;
        &&& given.len() <= 1
        &&& shape.kind == Kind::Stream ==> outputs[i] == Output::<V>::Unit
        &&& shape.kind != Kind::Stream && cancellable && given.len() == 0 ==> outputs[i]
            == Output::<V>::Maybe(None)
        &&& shape.kind != Kind::Stream && cancellable && given.len() == 1 ==> outputs[i]
            == Output::Maybe(Some(given[0]))
        &&& shape.kind != Kind::Stream && !cancellable ==> given.len() == 1 && outputs[i]
            == Output::Value(given[0])
        &&& shape.kind != Kind::Stream && !shape.is_maybe && !laws::run(
            w.s,
            events,
        ).arms[i].cancelled ==> given.len() == 1
    }) by {
        laws::outputs_are_what_was_given(shapes, events, i as usize);
        assert(shapes[i] == arms[i].spec_shape());
    }
    events
}

} // verus!
