//! The state machine of [`crate::driver`] among the same replies that a program is given.

use vstd::prelude::*;

use crate::driver::{Action, BodyPoll, JoinView};
use crate::laws::Event;
use crate::laws;
use crate::meaning::{Answer, Reply, Seen};
use crate::meaning;
use crate::poll::Poll;

verus! {

/// A join, the replies that the world has yet to give, and the acts so far.
pub struct World<V> {
    pub s: JoinView<V>,
    pub replies: Seq<Reply<V>>,
    pub log: Seq<Seen<V>>,
}

/// Cancels arms by their labels, one after the other.
pub open spec fn cancel_all<V>(s: JoinView<V>, cancels: Seq<usize>) -> JoinView<V>
    decreases cancels.len(),
{
    if cancels.len() == 0 {
        s
    } else {
        cancel_all(s, cancels.drop_last()).cancel(cancels.last() as int)
    }
}

/// An answer, as that of a future.
pub open spec fn as_future<V>(answer: Answer<V>) -> Poll<V> {
    match answer {
        Answer::Value(value) => Poll::Ready(value),
        _ => Poll::Pending,
    }
}

/// An answer, as that of a stream.
pub open spec fn as_stream<V>(answer: Answer<V>) -> Poll<Option<V>> {
    match answer {
        Answer::Value(value) => Poll::Ready(Some(value)),
        Answer::End => Poll::Ready(None),
        Answer::Pending => Poll::Pending,
    }
}

/// An answer, as that of a body.
pub open spec fn as_body<V>(answer: Answer<V>) -> BodyPoll<V> {
    match answer {
        Answer::Value(value) => BodyPoll::Completed(value),
        Answer::End => BodyPoll::Returned,
        Answer::Pending => BodyPoll::Pending,
    }
}

/// The state once the world has replied to an action.
pub open spec fn replied<V>(s: JoinView<V>, action: Action<V>, reply: Reply<V>) -> JoinView<V> {
    let cancelled = cancel_all(s, reply.cancels);
    match action {
        Action::PollArm(i) => if s.arms[i as int].shape.spec_is_stream() {
            cancelled.stream_polled(as_stream(reply.answer))
        } else {
            cancelled.future_polled(as_future(reply.answer))
        },
        Action::PollBody(_) => cancelled.body_polled(as_body(reply.answer)),
        Action::Yield => cancelled,
        _ => s,
    }
}

impl<V> World<V> {
    /// One step of the join. What the join drops is not logged, but each entry of the log says
    /// what is still held.
    pub open spec fn advance(self) -> World<V> {
        let (s, action) = self.s.step();
        match action {
            None | Some(Action::DropArm(_)) | Some(Action::DropBody(_)) => World { s, ..self },
            Some(action) => {
                let log = self.log.push(
                    Seen { action, held: meaning::held(s.arms), body: s.body },
                );
                match action {
                    Action::Finish | Action::Return => World { s, log, ..self },
                    _ => if self.replies.len() == 0 {
                        World { s, log, ..self }
                    } else {
                        World {
                            s: replied(s, action, self.replies[0]),
                            replies: self.replies.drop_first(),
                            log,
                        }
                    },
                }
            },
        }
    }

    /// A number of steps of the join.
    pub open spec fn steps(self, n: nat) -> World<V>
        decreases n,
    {
        if n == 0 {
            self
        } else {
            self.steps((n - 1) as nat).advance()
        }
    }

    /// Whether the join gets there by its steps.
    pub open spec fn reaches(self, other: World<V>) -> bool {
        exists|n: nat| #[trigger] self.steps(n) == other
    }

    /// Whether the replies cancel only arms that have a label.
    pub open spec fn fair(self) -> bool {
        forall|k: int, c: int|
            0 <= k < self.replies.len() && 0 <= c < self.replies[k].cancels.len()
                ==> (#[trigger] self.replies[k].cancels[c]) < self.s.arms.len()
                && self.s.arms[self.replies[k].cancels[c] as int].shape.labeled
    }
}

pub proof fn lemma_reaches_itself<V>(w: World<V>)
    ensures
        w.reaches(w),
{
    assert(w.steps(0) == w);
}

pub proof fn lemma_reaches_next<V>(w: World<V>)
    ensures
        w.reaches(w.advance()),
{
    reveal_with_fuel(World::steps, 2);
    assert(w.steps(1) == w.advance());
}

proof fn lemma_steps_add<V>(w: World<V>, a: nat, b: nat)
    ensures
        w.steps(a + b) == w.steps(a).steps(b),
    decreases b,
{
    if b > 0 {
        lemma_steps_add(w, a, (b - 1) as nat);
        assert((a + b - 1) as nat == a + (b - 1) as nat);
    }
}

pub proof fn lemma_reaches_on<V>(w: World<V>, u: World<V>, v: World<V>)
    requires
        w.reaches(u),
        u.reaches(v),
    ensures
        w.reaches(v),
{
    let a = choose|n: nat| #[trigger] w.steps(n) == u;
    let b = choose|n: nat| #[trigger] u.steps(n) == v;
    lemma_steps_add(w, a, b);
    assert(w.steps(a + b) == v);
}

/// Cancellations keep what holds of a join at all times, and nothing else changes but the flags
/// and the count.
pub proof fn lemma_cancel_all<V>(s: JoinView<V>, cancels: Seq<usize>)
    requires
        s.wf(),
        forall|c: int|
            0 <= c < cancels.len() ==> (#[trigger] cancels[c]) < s.arms.len()
                && s.arms[cancels[c] as int].shape.labeled,
    ensures
        cancel_all(s, cancels).wf(),
        cancel_all(s, cancels) == (JoinView {
            arms: cancel_all(s, cancels).arms,
            count: cancel_all(s, cancels).count,
            ..s
        }),
        cancel_all(s, cancels).arms.len() == s.arms.len(),
        forall|i: int|
            0 <= i < s.arms.len() ==> (#[trigger] cancel_all(s, cancels).arms[i]).shape
                == s.arms[i].shape && cancel_all(s, cancels).arms[i].live == s.arms[i].live
                && cancel_all(s, cancels).arms[i].item == s.arms[i].item
                && cancel_all(s, cancels).arms[i].should_run_finally
                == s.arms[i].should_run_finally && cancel_all(s, cancels).arms[i].output
                == s.arms[i].output,
    decreases cancels.len(),
{
    if cancels.len() > 0 {
        let before = cancels.drop_last();
        assert forall|c: int| 0 <= c < before.len() implies (#[trigger] before[c]) < s.arms.len()
            && s.arms[before[c] as int].shape.labeled by {
            assert(cancels[c] == before[c]);
        }
        lemma_cancel_all(s, before);
        assert(cancels.last() == cancels[cancels.len() - 1]);
        laws::cancel_keeps_wf(cancel_all(s, before), cancels.last() as int);
    }
}

/// What holds of a join at all times goes on holding, and so does what holds of the replies.
pub proof fn lemma_advance_keeps_wf<V>(w: World<V>)
    requires
        w.s.wf(),
        w.fair(),
    ensures
        w.advance().s.wf(),
        w.advance().fair(),
        w.advance().s.arms.len() == w.s.arms.len(),
        w.advance().s.total == w.s.total,
        forall|i: int|
            0 <= i < w.s.arms.len() ==> (#[trigger] w.advance().s.arms[i]).shape
                == w.s.arms[i].shape,
        w.advance().replies.len() <= w.replies.len(),
{
    let s = w.s;
    let (t, action) = s.step();
    laws::event_keeps_wf(s, Event::Step);
    assert(t == laws::after(s, Event::<V>::Step));
    let v = w.advance();
    if w.replies.len() > 0 {
        let reply = w.replies[0];
        assert forall|c: int| 0 <= c < reply.cancels.len() implies (#[trigger] reply.cancels[c])
            < t.arms.len() && t.arms[reply.cancels[c] as int].shape.labeled by {
            assert(w.replies[0].cancels[c] < s.arms.len());
        }
        lemma_cancel_all(t, reply.cancels);
        let c = cancel_all(t, reply.cancels);
        laws::event_keeps_wf(c, Event::Future(as_future(reply.answer)));
        laws::event_keeps_wf(c, Event::Stream(as_stream(reply.answer)));
        laws::event_keeps_wf(c, Event::Body(as_body(reply.answer)));
        assert(c.future_polled(as_future(reply.answer)) == laws::after(
            c,
            Event::Future(as_future(reply.answer)),
        ));
        assert(c.stream_polled(as_stream(reply.answer)) == laws::after(
            c,
            Event::Stream(as_stream(reply.answer)),
        ));
        assert(c.body_polled(as_body(reply.answer)) == laws::after(
            c,
            Event::Body(as_body(reply.answer)),
        ));
        assert forall|k: int, c: int|
            0 <= k < v.replies.len() && 0 <= c < v.replies[k].cancels.len() implies (
        #[trigger] v.replies[k].cancels[c]) < s.arms.len()
            && s.arms[v.replies[k].cancels[c] as int].shape.labeled by {
            if v.replies == w.replies.drop_first() {
                assert(w.replies[k + 1].cancels[c] < s.arms.len());
            } else {
                assert(w.replies[k].cancels[c] < s.arms.len());
            }
        }
    }
}

} // verus!
