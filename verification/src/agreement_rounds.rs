//! The loops of the program go round as the state machine of [`crate::driver`] does.

use vstd::prelude::*;

use crate::agreement;
use crate::code::{Cond, Do, Stmt, Value};
use crate::driver::{Action, ArmState, Body, BodyKind, BodyPoll, JoinView, Phase};
use crate::expansion::{Name, Part};
use crate::expansion;
use crate::laws;
use crate::lemmas;
use crate::meaning::{Answer, Flow, Mem};
use crate::meaning;
use crate::meaning_lemmas;
use crate::program;
use crate::shape::{ArmShape, Kind};
use crate::syntax::JoinMeMaybeArm;
use crate::world::World;
use crate::world;

verus! {

/// The polls of the first `n` arms.
pub proof fn lemma_polls<V>(
    m: Mem<V>,
    w: World<V>,
    arms: Seq<JoinMeMaybeArm>,
    n: nat,
) -> (v: World<V>)
    requires
        m.flow is On,
        agreement::meets(m, w, arms),
        n <= arms.len(),
        expansion::has_bodies(arms) ==> m.next == arms.len(),
        agreement::at_poll(w, agreement::up_to(m, expansion::has_bodies(arms), 0)),
    ensures
        ({
            let outline = expansion::outline(arms);
            let k = meaning::run(program::parts(Part::Poll, arms, n, outline), m);
            &&& w.reaches(v)
            &&& agreement::same_frame(m, k)
            &&& k.replies.len() <= m.replies.len()
            &&& k.replies.len() < m.replies.len() || k.next == m.next
            &&& {
                ||| agreement::ended(k, v)
                ||| k.flow is On && agreement::meets(k, v, arms) && k.next == m.next
                    && agreement::at_poll(v, agreement::up_to(m, outline.bodies, n as int))
                ||| k.flow is Break && agreement::left(k, v, arms)
            }
        }),
    decreases n,
{
    let outline = expansion::outline(arms);
    if n == 0 {
        meaning_lemmas::lemma_run_skip(m);
        world::lemma_reaches_itself(w);
        w
    } else {
        let i = (n - 1) as usize;
        let before = program::parts(Part::Poll, arms, (n - 1) as nat, outline);
        let last = program::part(Part::Poll, arms[n - 1], i, outline);
        let k = meaning::run(before, m);
        let u = lemma_polls(m, w, arms, (n - 1) as nat);
        meaning_lemmas::lemma_run_then(before, last, m);
        if k.flow is On {
            let v = agreement::lemma_poll(k, u, arms, i);
            world::lemma_reaches_on(w, u, v);
            v
        } else {
            u
        }
    }
}

/// Polling the arms, if something is left to wait for.
pub proof fn lemma_poll_all<V>(
    m: Mem<V>,
    w: World<V>,
    arms: Seq<JoinMeMaybeArm>,
    p: usize,
) -> (v: World<
    V,
>)
    requires
        m.flow is On,
        agreement::meets(m, w, arms),
        w.s.phase == Phase::Poll(p),
        p <= arms.len(),
        expansion::has_bodies(arms) ==> m.next == arms.len() && m.first == p,
        !expansion::has_bodies(arms) ==> p == 0,
    ensures
        ({
            let k = meaning::run(program::poll_all(arms, expansion::outline(arms)), m);
            &&& w.reaches(v)
            &&& agreement::same_frame(m, k)
            &&& k.replies.len() <= m.replies.len()
            &&& k.replies.len() < m.replies.len() || k.next == m.next
            &&& {
                ||| agreement::ended(k, v)
                ||| k.flow is On && agreement::left(k, v, arms)
            }
        }),
{
    let outline = expansion::outline(arms);
    let polls = program::parts(Part::Poll, arms, arms.len(), outline);
    let stmt = program::seq(polls, program::step(Do::Break));
    let finished = program::definitely_finished(outline.total);
    meaning_lemmas::lemma_run_if(program::not(finished), Stmt::Loop(Box::new(stmt)), m);
    meaning_lemmas::lemma_holds_not(finished, m);
    meaning_lemmas::lemma_holds_count_is(Name::DefinitelyFinishedCount, outline.total, m);
    if w.s.definitely_finished() {
        agreement::lemma_leave_polls(m, w, m, arms);
        w.advance()
    } else {
        let k = meaning::run(polls, m);
        let u = lemma_polls(m, w, arms, arms.len());
        meaning_lemmas::lemma_run_loop(stmt, m);
        meaning_lemmas::lemma_run_then(polls, program::step(Do::Break), m);
        meaning_lemmas::lemma_run_simple(Do::Break, k);
        meaning_lemmas::lemma_carry_out_break(k);
        if k.flow is On {
            lemmas::lemma_first_pollable(u.s, u.s.phase->Poll_0 as int);
            agreement::lemma_leave_polls(k, u, k, arms);
            world::lemma_reaches_on(w, u, u.advance());
            u.advance()
        } else {
            u
        }
    }
}

/// Dropping what is cancelled.
pub proof fn lemma_drop<V>(m: Mem<V>, w: World<V>, arms: Seq<JoinMeMaybeArm>) -> (v: World<V>)
    requires
        m.flow is On,
        agreement::meets(m, w, arms),
        w.s.phase == Phase::Drop || w.s.phase == Phase::Sweep,
    ensures
        ({
            let k = meaning::run(program::drop_cancelled(arms, expansion::outline(arms)), m);
            &&& w.reaches(v)
            &&& v == World { s: agreement::all_dropped(w.s), ..w }
            &&& k == Mem { arms: k.arms, ..m }
            &&& agreement::meets(k, v, arms)
            &&& v.s.first_to_drop() == arms.len()
        }),
{
    agreement::lemma_drop_cancelled(m, w, arms);
    agreement::lemma_world_drops(w, 0);
    let v = World { s: agreement::all_dropped(w.s), ..w };
    let k = meaning::run(program::drop_cancelled(arms, expansion::outline(arms)), m);
    assert forall|j: int| 0 <= j < arms.len() implies (#[trigger] k.arms[j]).shape
        == arms[j].spec_shape() by {
        assert(k.arms[j] == agreement::forget(v.s.arms[j]));
        assert(m.arms[j] == agreement::forget(w.s.arms[j]));
    }
    lemmas::lemma_first_to_drop(v.s);
    if v.s.first_to_drop() < arms.len() {
        assert(!v.s.must_drop(v.s.first_to_drop()));
    }
    if let Some(body) = m.body {
        assert(m.arms[body.arm as int].shape == k.arms[body.arm as int].shape);
    }
    v
}

/// The running body counts as cancelled exactly when its arm is cancelled: by its label, or because
/// it is a "maybe" arm and nothing is left to wait for.
pub proof fn lemma_body_is_cancelled<V>(m: Mem<V>, s: JoinView<V>, arms: Seq<JoinMeMaybeArm>)
    requires
        agreement::same_arms(m.arms, s.arms),
        m.count == s.count,
        m.body == s.body,
        m.body is Some,
        agreement::flags_fit(m),
        s.total == expansion::outline(arms).total,
    ensures
        meaning::holds(program::body_is_cancelled(expansion::outline(arms).total), m)
            == s.body_gone(),
{
    broadcast use meaning_lemmas::group_meaning;

    let body = m.body->0;
    assert(m.arms[body.arm as int] == agreement::forget(s.arms[body.arm as int]));
}

/// Whether the program is about to run the bodies, and the state machine too.
pub open spec fn at_bodies<V>(m: Mem<V>, w: World<V>, arms: Seq<JoinMeMaybeArm>) -> bool {
    &&& agreement::meets(m, w, arms)
    &&& w.s.phase == Phase::Bodies
    &&& w.s.next == m.next <= arms.len()
}

/// Whether the program is through with the bodies for now, and the state machine too.
pub open spec fn at_sweep<V>(m: Mem<V>, w: World<V>, arms: Seq<JoinMeMaybeArm>) -> bool {
    &&& agreement::meets(m, w, arms)
    &&& w.s.phase == Phase::Sweep
    &&& w.s.next == m.next <= arms.len()
    &&& !w.s.body_gone()
}

/// A body that is cancelled is dropped before it is polled.
pub proof fn lemma_drop_cancelled_body<V>(
    m: Mem<V>,
    w: World<V>,
    arms: Seq<JoinMeMaybeArm>,
) -> (v: World<
    V,
>)
    requires
        m.flow is On,
        at_bodies(m, w, arms),
    ensures
        ({
            let k = meaning::run(
                program::drop_cancelled_body(expansion::outline(arms).total),
                m,
            );
            &&& w.reaches(v)
            &&& k == Mem { body: k.body, ..m }
            &&& at_bodies(k, v, arms)
            &&& !v.s.body_gone()
            &&& v.replies == w.replies
        }),
{
    broadcast use meaning_lemmas::group_meaning;

    world::lemma_reaches_itself(w);
    world::lemma_reaches_next(w);
    if m.body is Some {
        lemma_body_is_cancelled(m, w.s, arms);
        if w.s.body_gone() {
            world::lemma_advance_keeps_wf(w);
            w.advance()
        } else {
            w
        }
    } else {
        w
    }
}

/// What follows the poll of a body, where `c` is what the variables were when it had answered.
pub open spec fn body_answered<V>(c: Mem<V>, cancelled: bool) -> Mem<V> {
    if c.returned {
        Mem { flow: Flow::Returned, ..c.note(Action::Return) }
    } else if c.no_return {
        Mem { no_return: false, ..c }
    } else if cancelled {
        c
    } else {
        Mem { flow: Flow::Break, ..c }
    }
}

pub proof fn lemma_poll_body_runs<V>(m: Mem<V>, total: usize)
    requires
        m.flow is On,
        m.body is Some,
        meaning::poll_body(m).flow is On,
    ensures
        meaning::run(program::poll_body(total), m) == body_answered(
            meaning::poll_body(m),
            meaning::holds(program::body_is_cancelled(total), meaning::poll_body(m)),
        ),
{
    let c = meaning::poll_body(m);
    let bic = program::body_is_cancelled(total);
    let flag = Cond::Flag(Name::RunBodyNoReturn);
    let store = program::step(Do::Store(Name::RunBodyNoReturn, false));
    let otherwise = Stmt::IfElse(bic, Box::new(Stmt::Skip), Box::new(program::step(Do::Break)));
    let ifs = Stmt::IfElseIf(flag, Box::new(store), Box::new(otherwise));
    let back = program::step(Do::Return);
    let returned = Stmt::IfReturned(Box::new(back), Box::new(ifs));
    let poll = program::step(Do::PollBody);
    meaning_lemmas::lemma_run_if_body(Name::RunBodyFuture, program::seq(poll, returned), m);
    meaning_lemmas::lemma_run_then(poll, returned, m);
    meaning_lemmas::lemma_run_simple(Do::PollBody, m);
    meaning_lemmas::lemma_carry_out_poll_body(m);
    meaning_lemmas::lemma_run_if_returned(back, ifs, c);
    meaning_lemmas::lemma_run_simple(Do::Return, c);
    meaning_lemmas::lemma_carry_out_return(c);
    meaning_lemmas::lemma_run_if_else_if(flag, store, otherwise, c);
    meaning_lemmas::lemma_holds_flag(Name::RunBodyNoReturn, c);
    meaning_lemmas::lemma_run_simple(Do::Store(Name::RunBodyNoReturn, false), c);
    meaning_lemmas::lemma_carry_out_store(Name::RunBodyNoReturn, false, c);
    meaning_lemmas::lemma_run_if_else(bic, Stmt::Skip, program::step(Do::Break), c);
    meaning_lemmas::lemma_run_skip(c);
    meaning_lemmas::lemma_run_simple(Do::Break, c);
    meaning_lemmas::lemma_carry_out_break(c);
}

pub proof fn lemma_poll_body_waits<V>(m: Mem<V>, total: usize)
    requires
        m.flow is On,
        m.body is Some,
        m.function is Some,
        m.replies.len() == 0,
    ensures
        meaning::run(program::poll_body(total), m) == m.act(Action::PollBody(m.body->0.arm)),
{
    broadcast use meaning_lemmas::group_meaning;

}

/// The value of a body that has run to its end goes where the state machine puts it.
pub proof fn lemma_value_of_body<V>(
    c: Mem<V>,
    u: JoinView<V>,
    body: Body,
    runner: agreement::Runner,
    arm: JoinMeMaybeArm,
    value: V,
)
    requires
        agreement::same_arms(c.arms, u.arms),
        body.arm < u.arms.len(),
        u.body == Some(body),
        u.phase == Phase::PollingBody,
        u.body_wf(),
        u.arms[body.arm as int].shape == arm.spec_shape(),
        agreement::bodies_fit(runner, arm, body.arm),
    ensures
        meaning::body_arm(runner.function.arms, meaning::variant(body)) is Some,
        ({
            let found = meaning::body_arm(runner.function.arms, meaning::variant(body))->0;
            let k = match found.sink {
                Some((_temporary, sink)) => c.set_option(sink, Some(value)),
                None => c,
            };
            &&& k == Mem { arms: k.arms, ..c }
            &&& agreement::same_arms(k.arms, u.body_polled(BodyPoll::Completed(value)).arms)
        }),
{
    assert(c.arms[body.arm as int] == agreement::forget(u.arms[body.arm as int]));
}

/// Polling the running body takes the same step as the state machine. If the body has returned,
/// the program returns at once; if it waits and is not cancelled, the program leaves the bodies.
#[verifier::rlimit(40)]
pub proof fn lemma_poll_body<V>(m: Mem<V>, w: World<V>, arms: Seq<JoinMeMaybeArm>) -> (v: World<V>)
    requires
        m.flow is On,
        at_bodies(m, w, arms),
        expansion::has_bodies(arms),
        m.body is Some,
        !w.s.body_gone(),
    ensures
        ({
            let k = meaning::run(program::poll_body(expansion::outline(arms).total), m);
            &&& w.reaches(v)
            &&& {
                ||| agreement::ended(k, v)
                ||| k.flow is Break && at_sweep(k, v, arms) && k.replies.len() < m.replies.len()
                ||| k.flow is On && at_bodies(Mem { body: None, ..k }, v, arms)
                    && k.replies.len() < m.replies.len()
            }
        }),
{
    let total = expansion::outline(arms).total;
    let s = w.s;
    let body = m.body->0;
    let t = JoinView { phase: Phase::PollingBody, ..s };
    let v = w.advance();
    let acted = m.act(Action::PollBody(body.arm));
    let k = meaning::run(program::poll_body(total), m);
    reveal(agreement::set_up);
    agreement::lemma_held(m.arms, s.arms);
    world::lemma_reaches_next(w);
    world::lemma_advance_keeps_wf(w);
    assert(s.step() == (t, Some(Action::<V>::PollBody(body.arm))));
    if w.replies.len() == 0 {
        lemma_poll_body_waits(m, total);
        v
    } else {
        let reply = w.replies[0];
        let function = m.function->0;
        let u = world::cancel_all(t, reply.cancels);
        let c = acted.cancel_all(function.labels, reply.cancels);
        laws::step_keeps_wf(s);
        assert forall|j: int| 0 <= j < arms.len() implies (#[trigger] s.arms[j]).shape
            == arms[j].spec_shape() by {
            assert(m.arms[j] == agreement::forget(s.arms[j]));
        }
        agreement::lemma_reply(acted, t, w, function.labels, arms);
        assert(v.s == u.body_polled(world::as_body(reply.answer)));
        let (module, params, variants) = m.module->0;
        let runner = agreement::Runner { function, module, params, variants };
        assert(agreement::bodies_fit(runner, arms[body.arm as int], body.arm));
        assert(u.arms[body.arm as int].shape == arms[body.arm as int].spec_shape());
        let polled = meaning::poll_body(m);
        match reply.answer {
            Answer::End => {
                assert(polled == Mem { returned: true, ..c });
                lemma_poll_body_runs(m, total);
                agreement::lemma_held(c.arms, v.s.arms);
                world::lemma_reaches_next(v);
                world::lemma_reaches_on(w, v, v.advance());
                v.advance()
            },
            Answer::Pending => {
                assert(polled == Mem { returned: false, ..c });
                lemma_body_is_cancelled(polled, u, arms);
                lemma_poll_body_runs(m, total);
                if u.body_gone() {
                    world::lemma_reaches_next(v);
                    world::lemma_reaches_on(w, v, v.advance());
                    world::lemma_advance_keeps_wf(v);
                    v.advance()
                } else {
                    v
                }
            },
            Answer::Value(value) => {
                lemma_value_of_body(c, u, body, runner, arms[body.arm as int], value);
                lemma_poll_body_runs(m, total);
                assert forall|j: int| 0 <= j < arms.len() implies (#[trigger] k.arms[j]).shape
                    == arms[j].spec_shape() by {
                    assert(k.arms[j] == agreement::forget(v.s.arms[j]));
                    assert(v.s.arms[j].shape == s.arms[j].shape);
                }
                v
            },
        }
    }
}

/// The variables once a body of arm `i` has been started, on the item if there is one.
pub open spec fn started<V>(m: Mem<V>, shape: ArmShape, i: usize) -> Mem<V> {
    let arm = m.arms[i as int];
    match arm.item {
        Some(item) => Mem {
            item: Some(item),
            body: Some(Body { arm: i, kind: BodyKind::Item }),
            ..m.set(i, ArmState { item: None, ..arm })
        }.act(Action::StartBody(i, item)),
        None => Mem { body: Some(Body { arm: i, kind: BodyKind::Finally }), ..m }.act(
            Action::StartFinally(i),
        ),
    }
}

/// The variables once those of the running body have been set as well.
pub open spec fn flags_set<V>(m: Mem<V>, shape: ArmShape, i: usize) -> Mem<V> {
    Mem {
        body_is_maybe: shape.is_maybe,
        body_flag: if shape.labeled {
            Some(Name::Cancelled(i))
        } else {
            None
        },
        flow: Flow::Continue,
        ..m
    }
}

pub proof fn lemma_set_body_flags<V>(m: Mem<V>, shape: ArmShape, i: usize)
    requires
        m.flow is On,
    ensures
        meaning::run(program::set_body_flags(shape, i), m) == flags_set(m, shape, i),
{
    broadcast use meaning_lemmas::group_meaning;

}

/// Starting a body of arm `i` on the item that was taken.
pub open spec fn start_stmt(i: usize) -> Stmt {
    program::seq(
        program::drop_body(),
        program::step(
            Do::Assign(
                Name::RunBodyFuture,
                Value::Run(Name::RunBodyFn, Name::PrivateModule, Name::Variant(i)),
            ),
        ),
    )
}

/// Noting that an item of a stream was consumed that is still there.
pub open spec fn consume_stmt(shape: ArmShape, i: usize) -> Stmt {
    program::when(
        program::is_live(shape, i),
        program::step(Do::Assign(Name::ItemConsumedFromLiveStream, Value::Bool(true))),
    )
}

pub proof fn lemma_start_stmt<V>(m: Mem<V>, i: usize, item: V)
    requires
        m.flow is On,
        m.item == Some(item),
        meaning::takes(m, Name::PrivateModule, Name::Variant(i), true),
    ensures
        meaning::run(start_stmt(i), m) == (Mem {
            body: Some(Body { arm: i, kind: BodyKind::Item }),
            ..m
        }).act(Action::StartBody(i, item)),
{
    broadcast use meaning_lemmas::group_meaning;

    let none = Mem { body: None, ..m };
    assert(meaning::run(program::drop_body(), m) == none);
    assert(meaning::takes(none, Name::PrivateModule, Name::Variant(i), true));
}

pub proof fn lemma_consume_stmt<V>(m: Mem<V>, shape: ArmShape, i: usize)
    requires
        m.flow is On,
        m.arms[i as int].shape == shape,
        agreement::celled(m, shape, i),
    ensures
        meaning::run(consume_stmt(shape, i), m) == (Mem {
            consumed: m.consumed || m.arms[i as int].spec_feeds(),
            ..m
        }),
{
    broadcast use meaning_lemmas::group_meaning;

}

pub proof fn lemma_run_two<V>(s: Stmt, t: Stmt, m: Mem<V>, x: Mem<V>)
    requires
        meaning::run(s, m) == x,
    ensures
        x.flow is On ==> meaning::run(program::seq(s, t), m) == meaning::run(t, x),
        !(x.flow is On) ==> meaning::run(program::seq(s, t), m) == x,
{
    meaning_lemmas::lemma_run_then(s, t, m);
}

/// What follows the taking of an item.
pub proof fn lemma_start_taken<V>(
    base: Mem<V>,
    k: Mem<V>,
    shape: ArmShape,
    i: usize,
) -> (body: Stmt)
    requires
        meaning::run(start_stmt(i), base) == k,
        k.flow is On || k.flow is Waiting,
        k.arms[i as int].shape == shape,
        agreement::celled(k, shape, i),
    ensures
        program::start_body(shape, i) == Stmt::IfTaken(Name::ArmItem(i), Box::new(body)),
        k.flow is Waiting ==> meaning::run(body, base) == k,
        k.flow is On ==> meaning::run(body, base) == flags_set(
            Mem {
                consumed: k.consumed || (shape.spec_is_stream()
                    && k.arms[i as int].spec_feeds()),
                ..k
            },
            shape,
            i,
        ),
{
    let start = start_stmt(i);
    let consume = consume_stmt(shape, i);
    let flags = program::set_body_flags(shape, i);
    let consumed = Mem { consumed: k.consumed || k.arms[i as int].spec_feeds(), ..k };
    if k.flow is On {
        lemma_consume_stmt(k, shape, i);
        lemma_set_body_flags(consumed, shape, i);
        lemma_set_body_flags(k, shape, i);
        lemma_run_two(start, consume, base, k);
        lemma_run_two(program::seq(start, consume), flags, base, consumed);
        lemma_run_two(start, flags, base, k);
    } else {
        lemma_run_two(start, consume, base, k);
        lemma_run_two(program::seq(start, consume), flags, base, k);
        lemma_run_two(start, flags, base, k);
    }
    if shape.spec_is_stream() {
        program::seq(program::seq(start, consume), flags)
    } else {
        assert(Mem { consumed: k.consumed, ..k } == k);
        program::seq(start, flags)
    }
}

#[verifier::rlimit(40)]
pub proof fn lemma_start_body<V>(m: Mem<V>, shape: ArmShape, i: usize)
    requires
        m.flow is On,
        i < m.arms.len(),
        m.arms[i as int].shape == shape,
        agreement::celled(m, shape, i),
        m.arms[i as int].item is Some,
        meaning::takes(m, Name::PrivateModule, Name::Variant(i), true),
    ensures
        ({
            let k = started(m, shape, i);
            meaning::run(program::start_body(shape, i), m) == if m.replies.len() == 0 {
                k
            } else {
                flags_set(
                    Mem {
                        consumed: m.consumed || (shape.spec_is_stream()
                            && m.arms[i as int].spec_feeds()),
                        ..k
                    },
                    shape,
                    i,
                )
            }
        }),
{
    let arm = m.arms[i as int];
    let item = arm.item->0;
    let base = Mem { item: Some(item), ..m.set(i, ArmState { item: None, ..arm }) };
    let k = started(m, shape, i);
    lemma_start_stmt(base, i, item);
    assert(meaning::run(start_stmt(i), base) == k);
    let body = lemma_start_taken(base, k, shape, i);
    meaning_lemmas::lemma_run_if_taken(Name::ArmItem(i), body, m);
}

pub proof fn lemma_start_finally<V>(m: Mem<V>, shape: ArmShape, i: usize)
    requires
        m.flow is On,
        i < m.arms.len(),
        m.arms[i as int].item is None,
        meaning::takes(m, Name::PrivateModule, Name::FinallyVariant(i), false),
    ensures
        ({
            let k = started(m, shape, i);
            meaning::run(program::start_finally(shape, i), m)
                == if !m.arms[i as int].should_run_finally {
                m
            } else if m.replies.len() == 0 {
                k
            } else {
                flags_set(
                    k.set(i, ArmState { should_run_finally: false, ..m.arms[i as int] }),
                    shape,
                    i,
                )
            }
        }),
{
    broadcast use meaning_lemmas::group_meaning;

    let drop_body = program::drop_body();
    let assign = program::step(
        Do::Assign(
            Name::RunBodyFuture,
            Value::RunFinally(Name::RunBodyFn, Name::PrivateModule, Name::FinallyVariant(i)),
        ),
    );
    let start = program::seq(drop_body, assign);
    assert(meaning::run(drop_body, m) == Mem { body: None, ..m });
    let k = started(m, shape, i);
    assert(meaning::run(start, m) == k);
    if m.replies.len() > 0 {
        let off = k.set(i, ArmState { should_run_finally: false, ..m.arms[i as int] });
        lemma_set_body_flags(off, shape, i);
    }
}

pub proof fn lemma_try_body<V>(m: Mem<V>, shape: ArmShape, i: usize)
    requires
        m.flow is On,
        i < m.arms.len(),
        m.arms[i as int].shape == shape,
        agreement::celled(m, shape, i),
        m.arms[i as int].wf(),
        shape.spec_has_body() ==> meaning::takes(m, Name::PrivateModule, Name::Variant(i), true),
        shape.spec_has_finally() ==> meaning::takes(m, Name::PrivateModule, Name::FinallyVariant(i), false),
    ensures
        ({
            let arm = m.arms[i as int];
            let k = started(m, shape, i);
            meaning::run(program::try_body(shape, i), m) == if !arm.spec_startable() {
                m
            } else if m.replies.len() == 0 {
                k
            } else if arm.item is Some {
                flags_set(
                    Mem {
                        consumed: m.consumed || (shape.spec_is_stream() && arm.spec_feeds()),
                        ..k
                    },
                    shape,
                    i,
                )
            } else {
                flags_set(k.set(i, ArmState { should_run_finally: false, ..arm }), shape, i)
            }
        }),
{
    let arm = m.arms[i as int];
    if shape.kind == Kind::Future {
        meaning_lemmas::lemma_run_skip(m);
    } else {
        let start = program::start_body(shape, i);
        let finally = program::start_finally(shape, i);
        if arm.item is Some {
            lemma_start_body(m, shape, i);
        } else {
            lemma_nothing_to_start(m, shape, i);
            if shape.spec_has_finally() {
                lemma_start_finally(m, shape, i);
            }
        }
        meaning_lemmas::lemma_run_then(start, finally, m);
    }
}

pub proof fn lemma_nothing_to_start<V>(m: Mem<V>, shape: ArmShape, i: usize)
    requires
        m.arms[i as int].item is None,
    ensures
        meaning::run(program::start_body(shape, i), m) == m,
{
    broadcast use meaning_lemmas::group_meaning;

}

} // verus!
