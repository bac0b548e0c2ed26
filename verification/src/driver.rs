//! The state machine of a running join.
//!
//! A [`Join`] decides and its caller acts: [`Join::step`] says what to do next, and the caller
//! reports what came of it. The caller owns the futures, the streams and the running body.
//!
//! A join goes through its arms in passes. Each arm is polled once in a pass, as long as something
//! is left to wait for. When an arm gives its body something to do and no other body is running,
//! the body runs before the next arm is polled; else what it is for waits, and the arm is not
//! asked for more. What is cancelled is dropped before bodies run and again before the join waits.
//! A body that is cancelled while that goes on is dropped too.

use vstd::prelude::*;

use crate::canceller;
use crate::laws;
use crate::lemmas;
use crate::poll::Poll;
use crate::shape::{ArmShape, Bump, Kind};

verus! {

/// One arm of a running join.
pub struct ArmState<V> {
    pub shape: ArmShape,
    /// Set when the arm is cancelled by its label.
    pub cancelled: bool,
    /// Set when an arm that has a label and is waited for finishes or is cancelled.
    pub finished: bool,
    /// Whether the future or the stream is still there.
    pub live: bool,
    /// Whether the future or the stream was polled in this pass and answered `Pending`.
    pub registered: bool,
    /// What the body of the arm has yet to consume.
    pub item: Option<V>,
    /// Set when a stream with `finally` ends, until its `finally` expression starts.
    pub should_run_finally: bool,
    /// The value of the arm.
    pub output: Option<V>,
}

/// The two expressions that run as a body.
#[derive(Clone, Copy, Debug, PartialEq, Eq, Structural)]
pub enum BodyKind {
    /// The expression after `=>`.
    Item,
    /// The expression after `finally`.
    Finally,
}

/// The body that is running.
#[derive(Clone, Copy, Debug, PartialEq, Eq, Structural)]
pub struct Body {
    pub arm: usize,
    pub kind: BodyKind,
}

/// Where a join stands in its loop.
#[derive(Clone, Copy, Debug, PartialEq, Eq, Structural)]
pub enum Phase {
    /// At the start of a pass.
    Top,
    /// About to poll the first arm from this one on that is to be polled.
    Poll(usize),
    /// Waiting for the answer of this arm.
    Polling(usize),
    /// Dropping what was cancelled, before any body runs.
    Drop,
    /// Running bodies.
    Bodies,
    /// Waiting for the answer of the running body.
    PollingBody,
    /// Dropping what is cancelled, once the bodies have run.
    Sweep,
    /// All done.
    Done,
    /// A body has returned from the enclosing function.
    Returned,
}

/// What the caller is to do.
#[derive(Debug)]
pub enum Action<V> {
    /// Poll the future or the stream of this arm, and report the answer.
    PollArm(usize),
    /// Drop the future or the stream of this arm, if it is still there.
    DropArm(usize),
    /// Start the `=>` body of this arm on this item. It does nothing before it is polled, and may
    /// be dropped before that.
    StartBody(usize, V),
    /// Start the `finally` expression of this arm, likewise.
    StartFinally(usize),
    /// Poll the running body, which is one of this arm, and report the answer.
    PollBody(usize),
    /// Drop the running body, which is one of this arm.
    DropBody(usize),
    /// Wait to be woken up.
    Yield,
    /// Return the values of the arms.
    Finish,
    /// Return from the enclosing function what the body returned.
    Return,
}

/// The answer of the running body to a poll.
#[derive(Debug)]
pub enum BodyPoll<V> {
    /// It ran to its end, with this value.
    Completed(V),
    /// It waits.
    Pending,
    /// It returned from the enclosing function.
    Returned,
}

/// What a join returns for one arm.
#[derive(Debug, PartialEq, Eq)]
pub enum Output<V> {
    /// A stream without `finally` has no value.
    Unit,
    /// The value of an arm that cannot be cancelled.
    Value(V),
    /// The value of an arm that can be cancelled, if it got that far.
    Maybe(Option<V>),
}

/// A running join.
pub struct Join<V> {
    arms: Vec<ArmState<V>>,
    /// How many of the arms that the join waits for have finished or have been cancelled.
    definitely_count: usize,
    /// How many arms the join waits for.
    total_definitely: usize,
    phase: Phase,
    body: Option<Body>,
    /// Whether a body took an item of a stream that is still there, in this pass.
    item_consumed_from_live_stream: bool,
    /// Where polling goes on in this pass, once the bodies have run.
    next_arm: usize,
}

/// The mathematical state of a join.
pub struct JoinView<V> {
    pub arms: Seq<ArmState<V>>,
    pub count: usize,
    pub total: usize,
    pub phase: Phase,
    pub body: Option<Body>,
    pub consumed: bool,
    pub next: usize,
}

impl<V> View for Join<V> {
    type V = JoinView<V>;

    closed spec fn view(&self) -> JoinView<V> {
        JoinView {
            arms: self.arms@,
            count: self.definitely_count,
            total: self.total_definitely,
            phase: self.phase,
            body: self.body,
            consumed: self.item_consumed_from_live_stream,
            next: self.next_arm,
        }
    }
}

/// How many arms are waited for.
pub open spec fn definite_count<V>(arms: Seq<ArmState<V>>) -> nat
    decreases arms.len(),
{
    if arms.len() == 0 {
        0
    } else {
        definite_count(arms.drop_last()) + if arms.last().shape.is_maybe {
            0nat
        } else {
            1nat
        }
    }
}

/// How many arms are waited for and over.
pub open spec fn over_count<V>(arms: Seq<ArmState<V>>) -> nat
    decreases arms.len(),
{
    if arms.len() == 0 {
        0
    } else {
        over_count(arms.drop_last()) + if !arms.last().shape.is_maybe && arms.last().over() {
            1nat
        } else {
            0nat
        }
    }
}

/// The least index from `i` on that has the property, or `n` if there is none below it.
pub open spec fn first_from(p: spec_fn(int) -> bool, i: int, n: int) -> int
    decreases n - i,
{
    if i >= n {
        n
    } else if p(i) {
        i
    } else {
        first_from(p, i + 1, n)
    }
}

impl<V> ArmState<V> {
    /// An arm at the start of a join.
    pub open spec fn initial(shape: ArmShape) -> ArmState<V> {
        ArmState {
            shape,
            cancelled: false,
            finished: false,
            live: true,
            registered: false,
            item: None,
            should_run_finally: false,
            output: None,
        }
    }

    /// Whether the future or the stream has finished or has been cancelled.
    pub open spec fn over(self) -> bool {
        if self.shape.labeled {
            self.finished
        } else {
            !self.live
        }
    }

    /// Whether the arm may be polled: it is there, it is not cancelled, and nothing that it gave
    /// before is still waiting for the body.
    pub open spec fn spec_pollable(self) -> bool {
        &&& self.live
        &&& !(self.shape.labeled && self.cancelled)
        &&& self.item is None
    }

    /// Whether a body of the arm is to run.
    pub open spec fn spec_startable(self) -> bool {
        self.item is Some || self.should_run_finally
    }

    /// Whether the stream of the arm counts as still there, for an item that is consumed.
    pub open spec fn spec_feeds(self) -> bool {
        if self.shape.labeled && !self.shape.is_maybe {
            !self.finished
        } else {
            self.live
        }
    }

    /// The finished flag, which only arms with a label that are waited for have.
    pub open spec fn finished_flag(self) -> Option<bool> {
        if self.shape.labeled && !self.shape.is_maybe {
            Some(self.finished)
        } else {
            None
        }
    }

    /// The arm once it has been cancelled by its label.
    pub open spec fn after_cancel(self) -> ArmState<V> {
        ArmState {
            cancelled: true,
            finished: if self.shape.is_maybe {
                self.finished
            } else {
                true
            },
            ..self
        }
    }

    /// The arm once its future or its stream has been dropped, and its item with it.
    pub open spec fn after_drop(self) -> ArmState<V> {
        ArmState { live: false, item: None, ..self }
    }

    /// The arm once its future or its stream has finished on its own.
    pub open spec fn after_end(self) -> ArmState<V> {
        ArmState {
            live: false,
            finished: if self.shape.spec_bump() == Bump::Once {
                true
            } else {
                self.finished
            },
            ..self
        }
    }

    /// How much the arm adds to the count when it finishes on its own.
    pub open spec fn end_bump(self) -> nat {
        match self.shape.spec_bump() {
            Bump::Never => 0,
            Bump::Always => 1,
            Bump::Once => if self.finished {
                0
            } else {
                1
            },
        }
    }

    /// What holds of an arm at all times.
    pub open spec fn wf(self) -> bool {
        &&& !self.shape.labeled ==> !self.cancelled && !self.finished
        &&& self.shape.is_maybe ==> !self.finished
        &&& self.shape.labeled && !self.shape.is_maybe && self.cancelled ==> self.finished
        &&& self.shape.labeled && !self.shape.is_maybe && !self.live ==> self.finished
        &&& self.finished && !self.cancelled ==> !self.live
        &&& self.live ==> self.output is None && !self.should_run_finally
        &&& self.shape.kind == Kind::Future ==> self.item is None
        &&& self.shape.kind == Kind::FutureBody && self.item is Some ==> !self.live
            && self.output is None
        &&& self.shape.spec_is_stream() && !self.live ==> self.item is None
        &&& !self.shape.spec_has_finally() ==> !self.should_run_finally
        &&& self.should_run_finally ==> self.output is None
        &&& !self.shape.spec_has_value() ==> self.output is None
    }
}

impl<V> JoinView<V> {
    /// Whether every arm that the join waits for has finished or has been cancelled.
    pub open spec fn definitely_finished(self) -> bool {
        self.count == self.total
    }

    /// Whether the arm is cancelled: by its label, or because it is a "maybe" arm and nothing is
    /// left to wait for.
    pub open spec fn gone(self, i: int) -> bool {
        ||| self.arms[i].shape.labeled && self.arms[i].cancelled
        ||| self.arms[i].shape.is_maybe && self.definitely_finished()
    }

    /// Whether a body is running whose arm is cancelled.
    pub open spec fn body_gone(self) -> bool {
        self.body matches Some(body) && self.gone(body.arm as int)
    }

    /// Whether the join has yet to wait for a body of the arm: the arm is waited for and not
    /// cancelled, and a body of it is running or is to run.
    pub open spec fn owes(self, i: int) -> bool {
        &&& !self.arms[i].shape.is_maybe
        &&& !(self.arms[i].shape.labeled && self.arms[i].cancelled)
        &&& self.arms[i].spec_startable() || (self.body matches Some(body) && body.arm == i)
    }

    /// Whether nothing is left to wait for, neither a future or a stream nor a body.
    pub open spec fn settled(self) -> bool {
        &&& self.definitely_finished()
        &&& forall|i: int| 0 <= i < self.arms.len() ==> !#[trigger] self.owes(i)
    }

    /// Whether the arm is cancelled and something of it is still to be dropped.
    pub open spec fn must_drop(self, i: int) -> bool {
        self.gone(i) && (self.arms[i].live || self.arms[i].item is Some)
    }

    pub open spec fn first_pollable(self, i: int) -> int {
        first_from(|k: int| self.arms[k].spec_pollable(), i, self.arms.len() as int)
    }

    pub open spec fn first_to_drop(self) -> int {
        first_from(|k: int| self.must_drop(k), 0, self.arms.len() as int)
    }

    pub open spec fn first_startable(self) -> int {
        first_from(|k: int| self.arms[k].spec_startable(), 0, self.arms.len() as int)
    }

    /// The state with another arm `i`.
    pub open spec fn set(self, i: int, arm: ArmState<V>) -> JoinView<V> {
        JoinView { arms: self.arms.update(i, arm), ..self }
    }

    /// The state once arm `i` has finished on its own.
    pub open spec fn end_arm(self, i: int) -> JoinView<V> {
        JoinView {
            arms: self.arms.update(i, self.arms[i].after_end()),
            count: (self.count + self.arms[i].end_bump()) as usize,
            ..self
        }
    }

    /// The state once arm `i` has been cancelled by its label.
    pub open spec fn cancel(self, i: int) -> JoinView<V> {
        JoinView {
            arms: self.arms.update(i, self.arms[i].after_cancel()),
            count: canceller::count_after_cancel(self.arms[i].finished_flag(), self.count),
            ..self
        }
    }

    /// One step of the join: the next state, and what the caller is to do, if anything.
    pub open spec fn step(self) -> (JoinView<V>, Option<Action<V>>) {
        match self.phase {
            Phase::Top => (
                JoinView {
                    arms: self.arms.map_values(
                        |arm: ArmState<V>| ArmState { registered: false, ..arm },
                    ),
                    phase: Phase::Poll(0),
                    consumed: false,
                    ..self
                },
                None,
            ),
            Phase::Poll(i) => {
                let j = self.first_pollable(i as int);
                if self.definitely_finished() || j >= self.arms.len() {
                    (JoinView { phase: Phase::Drop, next: self.arms.len() as usize, ..self }, None)
                } else {
                    (
                        JoinView { phase: Phase::Polling(j as usize), ..self },
                        Some(Action::PollArm(j as usize)),
                    )
                }
            },
            Phase::Polling(_) => (self, None),
            Phase::Drop => {
                let j = self.first_to_drop();
                if j < self.arms.len() {
                    (self.set(j, self.arms[j].after_drop()), Some(Action::DropArm(j as usize)))
                } else {
                    (JoinView { phase: Phase::Bodies, ..self }, None)
                }
            },
            Phase::Bodies => match self.body {
                Some(body) => if self.gone(body.arm as int) {
                    (JoinView { body: None, ..self }, Some(Action::DropBody(body.arm)))
                } else {
                    (
                        JoinView { phase: Phase::PollingBody, ..self },
                        Some(Action::PollBody(body.arm)),
                    )
                },
                None => {
                    let j = self.first_startable();
                    if j >= self.arms.len() {
                        (JoinView { phase: Phase::Sweep, ..self }, None)
                    } else {
                        self.start(j)
                    }
                },
            },
            Phase::PollingBody => (self, None),
            Phase::Sweep => {
                let j = self.first_to_drop();
                if j < self.arms.len() {
                    (self.set(j, self.arms[j].after_drop()), Some(Action::DropArm(j as usize)))
                } else if self.body_gone() {
                    (JoinView { phase: Phase::Bodies, ..self }, None)
                } else if self.definitely_finished() && self.body is None {
                    (JoinView { phase: Phase::Done, ..self }, Some(Action::Finish))
                } else if self.next < self.arms.len() {
                    (JoinView { phase: Phase::Poll(self.next), ..self }, None)
                } else if self.consumed {
                    (JoinView { phase: Phase::Top, ..self }, None)
                } else {
                    (JoinView { phase: Phase::Top, ..self }, Some(Action::Yield))
                }
            },
            Phase::Done => (self, Some(Action::Finish)),
            Phase::Returned => (self, Some(Action::Return)),
        }
    }

    /// Starts a body of arm `j`: the `=>` body if an item is waiting, else `finally`.
    pub open spec fn start(self, j: int) -> (JoinView<V>, Option<Action<V>>) {
        let arm = self.arms[j];
        match arm.item {
            Some(item) => (
                JoinView {
                    arms: self.arms.update(j, ArmState { item: None, ..arm }),
                    body: Some(Body { arm: j as usize, kind: BodyKind::Item }),
                    consumed: self.consumed || arm.shape.spec_is_stream() && arm.spec_feeds(),
                    ..self
                },
                Some(Action::StartBody(j as usize, item)),
            ),
            None => (
                JoinView {
                    arms: self.arms.update(j, ArmState { should_run_finally: false, ..arm }),
                    body: Some(Body { arm: j as usize, kind: BodyKind::Finally }),
                    ..self
                },
                Some(Action::StartFinally(j as usize)),
            ),
        }
    }

    /// Whether the answer of a future is due.
    pub open spec fn awaits_future(self) -> bool {
        self.phase matches Phase::Polling(j) && !self.arms[j as int].shape.spec_is_stream()
    }

    /// Whether the answer of a stream is due.
    pub open spec fn awaits_stream(self) -> bool {
        self.phase matches Phase::Polling(j) && self.arms[j as int].shape.spec_is_stream()
    }

    /// Goes on after arm `j` has answered: to its body, if it is to run and nothing else does, else
    /// to the next arm.
    pub open spec fn go_on(self, j: usize) -> JoinView<V> {
        if !self.definitely_finished() && self.body is None
            && self.arms[j as int].spec_startable() {
            JoinView { phase: Phase::Drop, next: (j + 1) as usize, ..self }
        } else {
            JoinView { phase: Phase::Poll((j + 1) as usize), ..self }
        }
    }

    /// The state once the future of the arm that is being polled has answered.
    pub open spec fn future_polled(self, answer: Poll<V>) -> JoinView<V> {
        match self.phase {
            Phase::Polling(j) => if self.arms[j as int].shape.spec_is_stream() {
                self
            } else {
                let arm = self.arms[j as int];
                match answer {
                    Poll::Ready(value) => if arm.shape.kind == Kind::Future {
                        self.set(j as int, ArmState { output: Some(value), ..arm }).end_arm(
                            j as int,
                        ).go_on(j)
                    } else {
                        self.set(j as int, ArmState { item: Some(value), ..arm }).end_arm(
                            j as int,
                        ).go_on(j)
                    },
                    Poll::Pending => self.set(
                        j as int,
                        ArmState { registered: true, ..arm },
                    ).go_on(j),
                }
            },
            _ => self,
        }
    }

    /// The state once the stream of the arm that is being polled has answered.
    pub open spec fn stream_polled(self, answer: Poll<Option<V>>) -> JoinView<V> {
        match self.phase {
            Phase::Polling(j) => if !self.arms[j as int].shape.spec_is_stream() {
                self
            } else {
                let arm = self.arms[j as int];
                match answer {
                    Poll::Ready(Some(item)) => self.set(
                        j as int,
                        ArmState { item: Some(item), ..arm },
                    ).go_on(j),
                    Poll::Ready(None) => self.set(
                        j as int,
                        ArmState { should_run_finally: arm.shape.spec_has_finally(), ..arm },
                    ).end_arm(j as int).go_on(j),
                    Poll::Pending => self.set(
                        j as int,
                        ArmState { registered: true, ..arm },
                    ).go_on(j),
                }
            },
            _ => self,
        }
    }

    /// The state once the running body has answered.
    pub open spec fn body_polled(self, answer: BodyPoll<V>) -> JoinView<V> {
        match (self.phase, self.body) {
            (Phase::PollingBody, Some(body)) => match answer {
                BodyPoll::Completed(value) => {
                    let arm = self.arms[body.arm as int];
                    let next = JoinView { phase: Phase::Bodies, body: None, ..self };
                    if body.kind == BodyKind::Finally || !arm.shape.spec_is_stream() {
                        next.set(body.arm as int, ArmState { output: Some(value), ..arm })
                    } else {
                        next
                    }
                },
                BodyPoll::Pending => if self.gone(body.arm as int) {
                    JoinView { phase: Phase::Bodies, ..self }
                } else {
                    JoinView { phase: Phase::Sweep, ..self }
                },
                BodyPoll::Returned => JoinView { phase: Phase::Returned, ..self },
            },
            _ => self,
        }
    }

    /// Whether the value of an arm is still to come from a body that waits or runs.
    pub open spec fn on_its_way(self, i: int) -> bool {
        ||| self.arms[i].item is Some
        ||| self.arms[i].should_run_finally
        ||| self.body == Some(
            Body {
                arm: i as usize,
                kind: if self.arms[i].shape.spec_is_stream() {
                    BodyKind::Finally
                } else {
                    BodyKind::Item
                },
            },
        )
    }

    /// Whether the running body, if any, fits its arm.
    pub open spec fn body_wf(self) -> bool {
        match self.body {
            Some(body) => {
                let arm = self.arms[body.arm as int];
                &&& body.arm < self.arms.len()
                &&& arm.shape.spec_has_body()
                &&& body.kind == BodyKind::Finally ==> arm.shape.spec_has_finally()
                &&& body.kind == BodyKind::Finally || !arm.shape.spec_is_stream() ==> !arm.live
                    && arm.item is None && !arm.should_run_finally && arm.output is None
            },
            None => true,
        }
    }

    /// What holds at each point of the loop.
    pub open spec fn phase_wf(self) -> bool {
        match self.phase {
            Phase::Top => self.body is None ==> self.nothing_startable(),
            Phase::Poll(i) => {
                &&& self.body is None && !self.definitely_finished() ==> self.nothing_startable()
                &&& self.consumed || self.all_registered(i as int)
            },
            Phase::Polling(j) => {
                &&& j < self.arms.len()
                &&& self.body is None ==> self.nothing_startable()
                &&& self.arms[j as int].live
                &&& self.arms[j as int].item is None
                &&& self.consumed || self.all_registered(j as int)
            },
            Phase::Drop | Phase::Bodies => self.consumed || self.all_registered(self.next as int),
            Phase::PollingBody => {
                &&& self.body is Some
                &&& self.consumed || self.all_registered(self.next as int)
            },
            Phase::Sweep => {
                &&& self.body is None ==> self.nothing_startable()
                &&& self.consumed || self.all_registered(self.next as int)
            },
            Phase::Done => {
                &&& self.definitely_finished()
                &&& self.body is None
                &&& self.nothing_startable()
            },
            Phase::Returned => true,
        }
    }

    /// Whether no body waits to run.
    pub open spec fn nothing_startable(self) -> bool {
        forall|i: int| 0 <= i < self.arms.len() ==> !(#[trigger] self.arms[i]).spec_startable()
    }

    /// Whether each of the first `n` arms that could be polled has answered `Pending` in this
    /// pass, and so has registered a wakeup.
    pub open spec fn all_registered(self, n: int) -> bool {
        forall|i: int|
            0 <= i < n && i < self.arms.len() && (#[trigger] self.arms[i]).spec_pollable()
                && !self.gone(i) ==> self.arms[i].registered
    }

    /// What holds of a join at all times.
    pub open spec fn wf(self) -> bool {
        &&& self.arms.len() <= usize::MAX
        &&& self.total == definite_count(self.arms)
        &&& self.count == over_count(self.arms)
        &&& forall|i: int| 0 <= i < self.arms.len() ==> (#[trigger] self.arms[i]).wf()
        &&& forall|i: int|
            0 <= i < self.arms.len() && !(#[trigger] self.arms[i]).live && !self.gone(i)
                && self.arms[i].shape.spec_has_value() ==> self.arms[i].output is Some
                || self.on_its_way(i)
        &&& self.body_wf()
        &&& self.phase_wf()
    }
}

/// What a join returns for an arm.
pub open spec fn output_of<V>(arm: ArmState<V>) -> Output<V> {
    if !arm.shape.spec_has_value() {
        Output::Unit
    } else if arm.shape.spec_cancellable() {
        Output::Maybe(arm.output)
    } else {
        Output::Value(arm.output->0)
    }
}

impl<V> JoinView<V> {
    /// The state at the start of a join with arms of these shapes.
    pub open spec fn initial(shapes: Seq<ArmShape>) -> JoinView<V> {
        let arms = shapes.map_values(|shape: ArmShape| ArmState::<V>::initial(shape));
        JoinView {
            arms,
            count: 0,
            total: definite_count(arms) as usize,
            phase: Phase::Top,
            body: None,
            consumed: false,
            next: 0,
        }
    }
}

impl<V> Join<V> {
    /// A join whose arms have these shapes, before anything has been polled.
    pub fn new(shapes: &Vec<ArmShape>) -> (join: Join<V>)
        ensures
            join@ == JoinView::<V>::initial(shapes@),
            join@.wf(),
    {
        let mut arms: Vec<ArmState<V>> = Vec::new();
        let mut total_definitely: usize = 0;
        let ghost all = JoinView::<V>::initial(shapes@).arms;
        for i in 0..shapes.len()
            invariant
                all == JoinView::<V>::initial(shapes@).arms,
                arms@ == all.take(i as int),
                total_definitely == definite_count(arms@),
                over_count(arms@) == 0,
                total_definitely <= i,
        {
            let shape: ArmShape = shapes[i];
            if !shape.is_maybe {
                total_definitely = total_definitely + 1;
            }
            arms.push(
                ArmState {
                    shape,
                    cancelled: false,
                    finished: false,
                    live: true,
                    registered: false,
                    item: None,
                    should_run_finally: false,
                    output: None,
                },
            );
            proof {
                assert(arms@.drop_last() =~= all.take(i as int));
                assert(arms@ =~= all.take(i + 1));
            }
        }
        proof {
            assert(all.take(shapes@.len() as int) =~= all);
        }
        Join {
            arms,
            definitely_count: 0,
            total_definitely,
            phase: Phase::Top,
            body: None,
            item_consumed_from_live_stream: false,
            next_arm: 0,
        }
    }

    /// Whether every arm that the join waits for has finished or has been cancelled.
    pub fn definitely_finished(&self) -> (yes: bool)
        ensures
            yes == self@.definitely_finished(),
    {
        self.definitely_count == self.total_definitely
    }

    /// Whether the arm is cancelled: by its label, or because it is a "maybe" arm and nothing is
    /// left to wait for.
    pub fn gone(&self, i: usize) -> (yes: bool)
        requires
            i < self@.arms.len(),
        ensures
            yes == self@.gone(i as int),
    {
        let arm = &self.arms[i];
        (arm.shape.labeled && arm.cancelled) || (arm.shape.is_maybe && self.definitely_finished())
    }

    fn body_gone(&self) -> (yes: bool)
        requires
            self@.wf(),
        ensures
            yes == self@.body_gone(),
    {
        match self.body {
            Some(body) => self.gone(body.arm),
            None => false,
        }
    }

    fn find_pollable(&self, from: usize) -> (j: usize)
        ensures
            j == self@.first_pollable(from as int),
    {
        let mut i: usize = from;
        while i < self.arms.len()
            invariant
                self@.first_pollable(i as int) == self@.first_pollable(from as int),
            decreases self@.arms.len() - i,
        {
            let arm = &self.arms[i];
            if arm.live && !(arm.shape.labeled && arm.cancelled) && arm.item.is_none() {
                return i;
            }
            i = i + 1;
        }
        self.arms.len()
    }

    fn find_to_drop(&self) -> (j: usize)
        ensures
            j == self@.first_to_drop(),
    {
        let ghost p = |k: int| self@.must_drop(k);
        let n: usize = self.arms.len();
        let mut i: usize = 0;
        while i < n
            invariant
                i <= n,
                n == self@.arms.len(),
                p == |k: int| self@.must_drop(k),
                first_from(p, i as int, n as int) == first_from(p, 0, n as int),
            decreases n - i,
        {
            if self.gone(i) && (self.arms[i].live || self.arms[i].item.is_some()) {
                return i;
            }
            i = i + 1;
        }
        n
    }

    fn find_startable(&self) -> (j: usize)
        ensures
            j == self@.first_startable(),
    {
        let ghost p = |k: int| self@.arms[k].spec_startable();
        let n: usize = self.arms.len();
        let mut i: usize = 0;
        while i < n
            invariant
                i <= n,
                n == self@.arms.len(),
                p == |k: int| self@.arms[k].spec_startable(),
                first_from(p, i as int, n as int) == first_from(p, 0, n as int),
            decreases n - i,
        {
            if self.arms[i].item.is_some() || self.arms[i].should_run_finally {
                return i;
            }
            i = i + 1;
        }
        n
    }

    fn drop_arm(&mut self, j: usize)
        requires
            j < old(self)@.arms.len(),
        ensures
            final(self)@ == old(self)@.set(j as int, old(self)@.arms[j as int].after_drop()),
    {
        let arm = &mut self.arms[j];
        arm.live = false;
        arm.item = None;
    }

    fn start_body(&mut self, j: usize) -> (action: Action<V>)
        requires
            j < old(self)@.arms.len(),
        ensures
            (final(self)@, Some(action)) == old(self)@.start(j as int),
    {
        let arm = &mut self.arms[j];
        match arm.item.take() {
            Some(item) => {
                let feeds: bool = if arm.shape.labeled && !arm.shape.is_maybe {
                    !arm.finished
                } else {
                    arm.live
                };
                if arm.shape.is_stream() && feeds {
                    self.item_consumed_from_live_stream = true;
                }
                self.body = Some(Body { arm: j, kind: BodyKind::Item });
                Action::StartBody(j, item)
            },
            None => {
                arm.should_run_finally = false;
                self.body = Some(Body { arm: j, kind: BodyKind::Finally });
                Action::StartFinally(j)
            },
        }
    }

    fn clear_registered(&mut self)
        ensures
            final(self)@ == (JoinView {
                arms: old(self)@.arms.map_values(
                    |arm: ArmState<V>| ArmState { registered: false, ..arm },
                ),
                ..old(self)@
            }),
    {
        let n: usize = self.arms.len();
        for i in 0..n
            invariant
                n == old(self)@.arms.len(),
                self@ == (JoinView { arms: self@.arms, ..old(self)@ }),
                self@.arms.len() == n,
                forall|k: int|
                    0 <= k < i ==> #[trigger] self@.arms[k] == (ArmState {
                        registered: false,
                        ..old(self)@.arms[k]
                    }),
                forall|k: int| i <= k < n ==> #[trigger] self@.arms[k] == old(self)@.arms[k],
        {
            let arm = &mut self.arms[i];
            arm.registered = false;
        }
        proof {
            assert(self@.arms =~= old(self)@.arms.map_values(
                |arm: ArmState<V>| ArmState { registered: false, ..arm },
            ));
        }
    }

    /// Takes one step, and says what the caller is to do. `None` means that there is nothing to
    /// do before the next step. While an answer is due, a step changes nothing.
    pub fn step(&mut self) -> (action: Option<Action<V>>)
        requires
            old(self)@.wf(),
        ensures
            (final(self)@, action) == old(self)@.step(),
            final(self)@.wf(),
    {
        proof {
            laws::step_keeps_wf(self@);
        }
        match self.phase {
            Phase::Top => {
                self.clear_registered();
                self.item_consumed_from_live_stream = false;
                self.phase = Phase::Poll(0);
                None
            },
            Phase::Poll(i) => {
                let j: usize = self.find_pollable(i);
                if self.definitely_finished() || j >= self.arms.len() {
                    self.next_arm = self.arms.len();
                    self.phase = Phase::Drop;
                    None
                } else {
                    self.phase = Phase::Polling(j);
                    Some(Action::PollArm(j))
                }
            },
            Phase::Polling(_) => None,
            Phase::Drop => {
                let j: usize = self.find_to_drop();
                if j < self.arms.len() {
                    self.drop_arm(j);
                    Some(Action::DropArm(j))
                } else {
                    self.phase = Phase::Bodies;
                    None
                }
            },
            Phase::Bodies => match self.body {
                Some(body) => if self.gone(body.arm) {
                    self.body = None;
                    Some(Action::DropBody(body.arm))
                } else {
                    self.phase = Phase::PollingBody;
                    Some(Action::PollBody(body.arm))
                },
                None => {
                    let j: usize = self.find_startable();
                    if j >= self.arms.len() {
                        self.phase = Phase::Sweep;
                        None
                    } else {
                        Some(self.start_body(j))
                    }
                },
            },
            Phase::PollingBody => None,
            Phase::Sweep => {
                let j: usize = self.find_to_drop();
                if j < self.arms.len() {
                    self.drop_arm(j);
                    Some(Action::DropArm(j))
                } else if self.body_gone() {
                    self.phase = Phase::Bodies;
                    None
                } else if self.definitely_finished() && self.body.is_none() {
                    self.phase = Phase::Done;
                    Some(Action::Finish)
                } else if self.next_arm < self.arms.len() {
                    self.phase = Phase::Poll(self.next_arm);
                    None
                } else if self.item_consumed_from_live_stream {
                    self.phase = Phase::Top;
                    None
                } else {
                    self.phase = Phase::Top;
                    Some(Action::Yield)
                }
            },
            Phase::Done => Some(Action::Finish),
            Phase::Returned => Some(Action::Return),
        }
    }

    fn end_arm(&mut self, j: usize)
        requires
            j < old(self)@.arms.len(),
            old(self)@.count + old(self)@.arms[j as int].end_bump() <= usize::MAX,
        ensures
            final(self)@ == old(self)@.end_arm(j as int),
    {
        let arm = &mut self.arms[j];
        arm.live = false;
        match arm.shape.bump() {
            Bump::Never => {},
            Bump::Always => {
                self.definitely_count = self.definitely_count + 1;
            },
            Bump::Once => {
                let already_finished: bool = arm.finished;
                arm.finished = true;
                if !already_finished {
                    self.definitely_count = self.definitely_count + 1;
                }
            },
        }
    }

    fn go_on(&mut self, j: usize)
        requires
            j < old(self)@.arms.len() <= usize::MAX,
        ensures
            final(self)@ == old(self)@.go_on(j),
    {
        let startable: bool = self.arms[j].item.is_some() || self.arms[j].should_run_finally;
        if !self.definitely_finished() && self.body.is_none() && startable {
            self.next_arm = j + 1;
            self.phase = Phase::Drop;
        } else {
            self.phase = Phase::Poll(j + 1);
        }
    }

    /// Reports the answer of the future that was polled. The result says whether the future has
    /// finished, and is to be dropped. An answer that was not asked for changes nothing.
    pub fn future_polled(&mut self, answer: Poll<V>) -> (ready: bool)
        requires
            old(self)@.wf(),
        ensures
            final(self)@ == old(self)@.future_polled(answer),
            ready == (old(self)@.awaits_future() && answer is Ready),
            final(self)@.wf(),
    {
        proof {
            laws::future_polled_keeps_wf(self@, answer);
        }
        match self.phase {
            Phase::Polling(j) => if self.arms[j].shape.is_stream() {
                false
            } else {
                proof {
                    lemmas::lemma_room_to_end(self@, j as int);
                }
                match answer {
                    Poll::Ready(value) => {
                        let arm = &mut self.arms[j];
                        match arm.shape.kind {
                            Kind::Future => {
                                arm.output = Some(value);
                            },
                            _ => {
                                arm.item = Some(value);
                            },
                        }
                        self.end_arm(j);
                        self.go_on(j);
                        true
                    },
                    Poll::Pending => {
                        let arm = &mut self.arms[j];
                        arm.registered = true;
                        self.go_on(j);
                        false
                    },
                }
            },
            _ => false,
        }
    }

    /// Reports the answer of the stream that was polled. The result says whether the stream has
    /// finished, and is to be dropped. An answer that was not asked for changes nothing.
    pub fn stream_polled(&mut self, answer: Poll<Option<V>>) -> (ready: bool)
        requires
            old(self)@.wf(),
        ensures
            final(self)@ == old(self)@.stream_polled(answer),
            ready == (old(self)@.awaits_stream() && answer == Poll::Ready(None::<V>)),
            final(self)@.wf(),
    {
        proof {
            laws::stream_polled_keeps_wf(self@, answer);
        }
        match self.phase {
            Phase::Polling(j) => if !self.arms[j].shape.is_stream() {
                false
            } else {
                proof {
                    lemmas::lemma_room_to_end(self@, j as int);
                }
                match answer {
                    Poll::Ready(Some(item)) => {
                        let arm = &mut self.arms[j];
                        arm.item = Some(item);
                        self.go_on(j);
                        false
                    },
                    Poll::Ready(None) => {
                        let arm = &mut self.arms[j];
                        arm.should_run_finally = arm.shape.has_finally();
                        self.end_arm(j);
                        self.go_on(j);
                        true
                    },
                    Poll::Pending => {
                        let arm = &mut self.arms[j];
                        arm.registered = true;
                        self.go_on(j);
                        false
                    },
                }
            },
            _ => false,
        }
    }

    /// Reports the answer of the running body. A body that has not answered `Pending` is over,
    /// and is to be dropped. An answer that was not asked for changes nothing.
    pub fn body_polled(&mut self, answer: BodyPoll<V>)
        requires
            old(self)@.wf(),
        ensures
            final(self)@ == old(self)@.body_polled(answer),
            final(self)@.wf(),
    {
        proof {
            laws::body_polled_keeps_wf(self@, answer);
        }
        if let Phase::PollingBody = self.phase {
            if let Some(body) = self.body {
                match answer {
                    BodyPoll::Completed(value) => {
                        let arm = &mut self.arms[body.arm];
                        if matches!(body.kind, BodyKind::Finally) || !arm.shape.is_stream() {
                            arm.output = Some(value);
                        }
                        self.body = None;
                        self.phase = Phase::Bodies;
                        proof {
                            assert(self@.arms =~= old(self)@.body_polled(answer).arms);
                        }
                    },
                    BodyPoll::Pending => {
                        if self.gone(body.arm) {
                            self.phase = Phase::Bodies;
                        } else {
                            self.phase = Phase::Sweep;
                        }
                    },
                    BodyPoll::Returned => {
                        self.phase = Phase::Returned;
                    },
                }
            }
        }
    }

    /// Cancels the arm by its label, at any time.
    pub fn cancel(&mut self, i: usize)
        requires
            old(self)@.wf(),
            i < old(self)@.arms.len(),
            old(self)@.arms[i as int].shape.labeled,
        ensures
            final(self)@ == old(self)@.cancel(i as int),
            final(self)@.wf(),
    {
        proof {
            laws::cancel_keeps_wf(self@, i as int);
        }
        let arm = &mut self.arms[i];
        if arm.shape.is_maybe {
            let mut canceller = canceller::new_canceller(
                &mut arm.cancelled,
                None,
                &mut self.definitely_count,
            );
            canceller.cancel();
        } else {
            let mut canceller = canceller::new_canceller(
                &mut arm.cancelled,
                Some(&mut arm.finished),
                &mut self.definitely_count,
            );
            canceller.cancel();
        }
    }

    /// The values of the arms, in order, once the join is done.
    pub fn outputs(self) -> (outputs: Vec<Output<V>>)
        requires
            self@.wf(),
            self@.phase == Phase::Done,
        ensures
            outputs@ == self@.arms.map_values(|arm: ArmState<V>| output_of(arm)),
            forall|i: int|
                0 <= i < outputs@.len() && self@.arms[i].shape.kind == Kind::Stream
                    ==> #[trigger] outputs@[i] == Output::<V>::Unit,
            forall|i: int|
                0 <= i < outputs@.len() && self@.arms[i].shape.kind != Kind::Stream && (
                self@.arms[i].shape.is_maybe || self@.arms[i].shape.labeled)
                    ==> #[trigger] outputs@[i] == Output::Maybe(self@.arms[i].output),
            forall|i: int|
                0 <= i < outputs@.len() && !self@.arms[i].shape.spec_cancellable()
                    && self@.arms[i].shape.spec_has_value() ==> self@.arms[i].output == Some(
                    (#[trigger] outputs@[i])->Value_0,
                ),
    {
        proof {
            laws::done_has_values(self@);
        }
        let mut outputs: Vec<Output<V>> = Vec::new();
        let mut arms = self.arms;
        let n: usize = arms.len();
        for i in 0..n
            invariant
                n == self@.arms.len(),
                arms@.len() == n,
                outputs@.len() == i,
                forall|k: int| i <= k < n ==> #[trigger] arms@[k] == self@.arms[k],
                forall|k: int| 0 <= k < i ==> #[trigger] outputs@[k] == output_of(self@.arms[k]),
                forall|k: int|
                    0 <= k < n && !(#[trigger] self@.arms[k]).shape.spec_cancellable()
                        && self@.arms[k].shape.spec_has_value() ==> self@.arms[k].output is Some,
        {
            let arm = &mut arms[i];
            let output: Option<V> = arm.output.take();
            if !arm.shape.has_value() {
                outputs.push(Output::Unit);
            } else if arm.shape.cancellable() {
                outputs.push(Output::Maybe(output));
            } else {
                match output {
                    Some(value) => outputs.push(Output::Value(value)),
                    None => {},
                }
            }
        }
        outputs
    }
}

} // verus!
