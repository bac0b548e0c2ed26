//! Each round of the loop of the program does what the state machine of [`crate::driver`] does.

use vstd::prelude::*;

use crate::agreement;
use crate::agreement_loop;
use crate::agreement_rounds;
use crate::code::{Cond, Do, Stmt, Value};
use crate::driver::{self, Action, ArmState, JoinView, Phase};
use crate::expansion::Name;
use crate::expansion;
use crate::laws;
use crate::lemmas;
use crate::meaning::{Flow, Mem};
use crate::meaning;
use crate::meaning_lemmas;
use crate::program;
use crate::syntax::JoinMeMaybeArm;
use crate::world::World;
use crate::world;

verus! {

/// Waiting, unless an item was consumed.
pub open spec fn wait_stmt() -> Stmt {
    program::when(
        program::not(Cond::Var(Name::ItemConsumedFromLiveStream)),
        program::step(Do::Yield),
    )
}

pub proof fn lemma_wait_stmt<V>(m: Mem<V>)
    requires
        m.flow is On,
    ensures
        meaning::run(wait_stmt(), m) == if m.consumed {
            m
        } else if m.replies.len() == 0 {
            m.act(Action::Yield)
        } else {
            m.act(Action::Yield).cancel_all(m.labels, m.replies[0].cancels)
        },
{
    broadcast use meaning_lemmas::group_meaning;

}

/// The state machine has gone through all arms, and starts over.
pub proof fn lemma_wait<V>(m: Mem<V>, w: World<V>, arms: Seq<JoinMeMaybeArm>) -> (v: World<V>)
    requires
        m.flow is On,
        agreement::meets(m, w, arms),
        w.s.phase == Phase::Sweep,
        w.s.first_to_drop() == arms.len(),
        !w.s.body_gone(),
        !(w.s.definitely_finished() && w.s.body is None),
        w.s.next >= arms.len(),
    ensures
        ({
            let k = meaning::run(wait_stmt(), m);
            &&& w.reaches(v)
            &&& {
                ||| agreement::ended(k, v)
                ||| k.flow is On && agreement::meets(Mem { consumed: false, ..k }, v, arms)
                    && v.s.phase == Phase::Poll(0) && (m.consumed && k == m || k.replies.len()
                    < m.replies.len()) && agreement::same_frame(m, k)
            }
        }),
{
    lemma_wait_stmt(m);
    let s = w.s;
    let u = w.advance();
    let t = JoinView { phase: Phase::Top, ..s };
    let k = meaning::run(wait_stmt(), m);
    world::lemma_reaches_next(w);
    if m.consumed {
        assert(u == World { s: t, ..w });
        agreement::lemma_meet_again(m, w, m, arms);
        lemma_top(m, u, arms);
        world::lemma_reaches_on(w, u, u.advance());
        u.advance()
    } else {
        assert(s.step() == (t, Some(Action::<V>::Yield)));
        agreement::lemma_held(m.arms, s.arms);
        if w.replies.len() == 0 {
            u
        } else {
            laws::step_keeps_wf(s);
            assert forall|j: int| 0 <= j < arms.len() implies (#[trigger] s.arms[j]).shape
                == arms[j].spec_shape() by {
                assert(m.arms[j] == agreement::forget(s.arms[j]));
            }
            agreement::lemma_reply(m.act(Action::Yield), t, w, m.labels, arms);
            agreement::lemma_meet_again(m, w, k, arms);
            lemma_top(k, u, arms);
            world::lemma_reaches_on(w, u, u.advance());
            u.advance()
        }
    }
}

/// A new pass begins.
pub proof fn lemma_top<V>(m: Mem<V>, w: World<V>, arms: Seq<JoinMeMaybeArm>)
    requires
        agreement::meets(m, w, arms),
        w.s.phase == Phase::Top,
    ensures
        agreement::meets(Mem { consumed: false, ..m }, w.advance(), arms),
        w.advance().s.phase == Phase::Poll(0),
        w.reaches(w.advance()),
{
    world::lemma_reaches_next(w);
    world::lemma_advance_keeps_wf(w);
    let v = w.advance();
    assert forall|i: int| 0 <= i < arms.len() implies #[trigger] m.arms[i] == agreement::forget(
        v.s.arms[i],
    ) by {
        assert(m.arms[i] == agreement::forget(w.s.arms[i]));
    }
}

/// Whether the program is at the start of a round, and the state machine is about to poll.
pub open spec fn at_head<V>(m: Mem<V>, w: World<V>, arms: Seq<JoinMeMaybeArm>) -> bool {
    let p = if expansion::has_bodies(arms) {
        m.next
    } else {
        0
    };
    &&& agreement::meets(m, w, arms)
    &&& w.s.phase == Phase::Poll(p)
    &&& p <= arms.len()
    &&& !expansion::has_bodies(arms) ==> !m.consumed && m.body is None
}

/// Returning the values, or waiting, or going on.
pub proof fn lemma_end_or_wait<V>(
    m: Mem<V>,
    w: World<V>,
    arms: Seq<JoinMeMaybeArm>,
) -> (v: World<V>)
    requires
        m.flow is On,
        agreement::meets(m, w, arms),
        w.s.phase == Phase::Sweep,
        w.s.first_to_drop() == arms.len(),
        !w.s.body_gone(),
        expansion::has_bodies(arms) ==> w.s.next == m.next <= arms.len(),
        !expansion::has_bodies(arms) ==> w.s.next == arms.len() && !m.consumed && m.body is None,
    ensures
        ({
            let k = meaning::run(program::end_or_wait(arms, expansion::outline(arms)), m);
            &&& w.reaches(v)
            &&& {
                ||| agreement::ended(k, v)
                ||| k.flow is On && at_head(k, v, arms) && (k.replies.len() < m.replies.len() || k
                    == m && m.next < arms.len() && expansion::has_bodies(arms) || m.consumed
                    && !k.consumed && k.replies == m.replies)
            }
        }),
{
    let outline = expansion::outline(arms);
    let bodies = outline.bodies;
    let n = arms.len();
    let s = w.s;
    let k = meaning::run(program::end_or_wait(arms, outline), m);
    let finished = program::definitely_finished(outline.total);
    meaning_lemmas::lemma_holds_count_is(Name::DefinitelyFinishedCount, outline.total, m);
    meaning_lemmas::lemma_holds_and(finished, Cond::Empty(Name::RunBodyFuture), m);
    meaning_lemmas::lemma_holds_empty(Name::RunBodyFuture, m);
    let give = Stmt::BreakWith(program::values(arms, n));
    let drops = program::seq(program::drop_body(), program::step(Do::Drop(Name::RunBodyFn)));
    let next = program::step(Do::Assign(Name::NextArm, Value::Zero));
    let reset = program::step(Do::Assign(Name::ItemConsumedFromLiveStream, Value::Bool(false)));
    let over = program::seq(program::seq(wait_stmt(), next), reset);
    let turn = program::when(Cond::Equals(Name::NextArm, n as usize), over);
    if bodies {
        meaning_lemmas::lemma_run_if_else_if(
            program::and(finished, Cond::Empty(Name::RunBodyFuture)),
            program::seq(drops, give),
            turn,
            m,
        );
    } else {
        meaning_lemmas::lemma_run_if_else_if(finished, give, wait_stmt(), m);
    }
    if s.definitely_finished() && s.body is None {
        let v = w.advance();
        world::lemma_reaches_next(w);
        world::lemma_advance_keeps_wf(w);
        agreement::lemma_held(m.arms, s.arms);
        let d = if bodies {
            Mem { function: None, ..m }
        } else {
            m
        };
        assert(bodies ==> meaning::run(drops, m) == d) by {
            broadcast use meaning_lemmas::group_meaning;

            assert(Mem { body: None, ..m } == m);
        }
        if bodies {
            agreement_rounds::lemma_run_two(drops, give, m, d);
        }
        agreement_loop::lemma_outputs(d, v.s, arms, n);
        let all = v.s.arms.map_values(|arm: ArmState<V>| driver::output_of(arm));
        assert(all.take(n as int) =~= all);
        meaning_lemmas::lemma_run_break_with(program::values(arms, n), d);
        v
    } else if s.next < n {
        meaning_lemmas::lemma_run_if(Cond::Equals(Name::NextArm, n as usize), over, m);
        meaning_lemmas::lemma_holds_equals(Name::NextArm, n as usize, m);
        world::lemma_reaches_next(w);
        agreement::lemma_meet_again(m, w, m, arms);
        w.advance()
    } else {
        let a = meaning::run(wait_stmt(), m);
        let v = lemma_wait(m, w, arms);
        if bodies {
            meaning_lemmas::lemma_run_if(Cond::Equals(Name::NextArm, n as usize), over, m);
            meaning_lemmas::lemma_holds_equals(Name::NextArm, n as usize, m);
            agreement_rounds::lemma_run_two(wait_stmt(), next, m, a);
            if a.flow is On {
                let b = Mem { next: 0, ..a };
                assert(meaning::run(next, a) == b && meaning::run(reset, b) == Mem {
                    consumed: false,
                    ..b
                }) by {
                    broadcast use meaning_lemmas::group_meaning;

                }
                agreement_rounds::lemma_run_two(program::seq(wait_stmt(), next), reset, m, b);
            } else {
                agreement_rounds::lemma_run_two(program::seq(wait_stmt(), next), reset, m, a);
            }
        } else if a.flow is On {
            assert(Mem { consumed: false, ..a } == a);
        }
        v
    }
}

/// Going on where polling left off.
pub proof fn lemma_take_up<V>(m: Mem<V>, arms: Seq<JoinMeMaybeArm>)
    requires
        m.flow is On,
    ensures
        ({
            let bodies = expansion::has_bodies(arms);
            let k = meaning::run(
                program::take_up_polling(arms.len() as usize, bodies),
                m,
            );
            &&& bodies ==> k == Mem { first: m.next, next: arms.len() as usize, ..m }
            &&& !bodies ==> k == m
        }),
{
    broadcast use meaning_lemmas::group_meaning;

}

/// Running the bodies, where there are any, once what is cancelled has been dropped.
pub proof fn lemma_bodies_or_none<V>(
    m: Mem<V>,
    w: World<V>,
    arms: Seq<JoinMeMaybeArm>,
) -> (v: World<V>)
    requires
        m.flow is On,
        agreement::meets(m, w, arms),
        w.s.phase == Phase::Drop,
        w.s.first_to_drop() == arms.len(),
        w.s.next <= arms.len(),
        expansion::has_bodies(arms) ==> w.s.next == m.next,
        !expansion::has_bodies(arms) ==> w.s.next == arms.len() && !m.consumed && m.body is None,
    ensures
        ({
            let k = meaning::run(program::bodies_or_none(arms, expansion::outline(arms)), m);
            &&& w.reaches(v)
            &&& {
                ||| agreement::ended(k, v)
                ||| {
                    &&& k.flow is On
                    &&& agreement::meets(k, v, arms)
                    &&& v.s.phase == Phase::Sweep
                    &&& v.s.first_to_drop() == arms.len()
                    &&& !v.s.body_gone()
                    &&& expansion::has_bodies(arms) ==> v.s.next == k.next <= arms.len()
                    &&& !expansion::has_bodies(arms) ==> v.s.next == arms.len() && !k.consumed
                        && k.body is None
                    &&& agreement_loop::idle_or_less(m, k)
                }
            }
        }),
{
    let outline = expansion::outline(arms);
    let u = w.advance();
    world::lemma_reaches_next(w);
    agreement::lemma_meet_again(m, w, m, arms);
    if outline.bodies {
        let v = agreement_loop::lemma_run_and_sweep(m, u, arms);
        world::lemma_reaches_on(w, u, v);
        v
    } else {
        assert(meaning::run(program::bodies_or_none(arms, outline), m) == m) by {
            broadcast use meaning_lemmas::group_meaning;

            assert(Mem { consumed: false, ..m } == m);
        }
        let v = u.advance();
        lemmas::lemma_first_startable(u.s);
        assert(u.s.first_startable() == arms.len()) by {
            let j = u.s.first_startable();
            if j < arms.len() {
                assert(!arms[j].spec_shape().spec_has_body());
                assert(m.arms[j] == agreement::forget(u.s.arms[j]));
                assert(u.s.arms[j].wf());
            }
        }
        world::lemma_reaches_next(u);
        world::lemma_reaches_on(w, u, v);
        agreement::lemma_meet_again(m, u, m, arms);
        lemmas::lemma_first_to_drop(w.s);
        lemmas::lemma_first_to_drop(v.s);
        assert(v.s.first_to_drop() == arms.len()) by {
            let j = v.s.first_to_drop();
            if j < arms.len() {
                assert(!w.s.must_drop(j));
            }
        }
        v
    }
}

/// One round of the loop.
pub proof fn lemma_round<V>(m: Mem<V>, w: World<V>, arms: Seq<JoinMeMaybeArm>) -> (v: World<V>)
    requires
        m.flow is On,
        at_head(m, w, arms),
    ensures
        ({
            let k = meaning::run(program::round(arms, expansion::outline(arms)), m);
            &&& w.reaches(v)
            &&& {
                ||| agreement::ended(k, v)
                ||| k.flow is On && at_head(k, v, arms) && (k.replies.len() < m.replies.len()
                    || k.replies.len() == m.replies.len() && m.consumed && !k.consumed)
            }
        }),
{
    let outline = expansion::outline(arms);
    let bodies = outline.bodies;
    let take_up = program::take_up_polling(arms.len() as usize, bodies);
    let polls = program::poll_all(arms, outline);
    let drop = program::drop_cancelled(arms, outline);
    let run_bodies = program::bodies_or_none(arms, outline);
    let end = program::end_or_wait(arms, outline);
    let a = meaning::run(take_up, m);
    lemma_take_up(m, arms);
    let p = if bodies {
        m.next
    } else {
        0
    };
    let b = meaning::run(polls, a);
    let w1 = agreement_rounds::lemma_poll_all(a, w, arms, p);
    agreement_rounds::lemma_run_two(take_up, polls, m, a);
    let s2 = program::seq(take_up, polls);
    agreement_rounds::lemma_run_two(s2, drop, m, b);
    let s3 = program::seq(s2, drop);
    if !(b.flow is On) {
        agreement_rounds::lemma_run_two(s3, run_bodies, m, b);
        agreement_rounds::lemma_run_two(program::seq(s3, run_bodies), end, m, b);
        w1
    } else {
        let c = meaning::run(drop, b);
        let w2 = agreement_rounds::lemma_drop(b, w1, arms);
        world::lemma_reaches_on(w, w1, w2);
        agreement_rounds::lemma_run_two(s3, run_bodies, m, c);
        let d = meaning::run(run_bodies, c);
        let w3 = lemma_bodies_or_none(c, w2, arms);
        world::lemma_reaches_on(w, w2, w3);
        agreement_rounds::lemma_run_two(program::seq(s3, run_bodies), end, m, d);
        if d.flow is On {
            let v = lemma_end_or_wait(d, w3, arms);
            world::lemma_reaches_on(w, w3, v);
            v
        } else {
            w3
        }
    }
}

/// The loop, to its end.
pub proof fn lemma_loop<V>(
    m: Mem<V>,
    w: World<V>,
    arms: Seq<JoinMeMaybeArm>,
    idle: nat,
) -> (v: World<V>)
    requires
        m.flow is On,
        at_head(m, w, arms),
        m.consumed ==> idle > 0,
    ensures
        w.reaches(v),
        agreement::ended(
            meaning::rounds(program::round(arms, expansion::outline(arms)), m, idle),
            v,
        ),
    decreases m.replies.len(), idle,
{
    let stmt = program::round(arms, expansion::outline(arms));
    let k = meaning::run(stmt, m);
    let u = lemma_round(m, w, arms);
    reveal_with_fuel(meaning::rounds, 2);
    if k.flow is On {
        assert(Mem { flow: Flow::On, ..k } == k);
        let v = if k.replies.len() < m.replies.len() {
            lemma_loop(k, u, arms, 2)
        } else {
            lemma_loop(k, u, arms, (idle - 1) as nat)
        };
        world::lemma_reaches_on(w, u, v);
        v
    } else {
        u
    }
}

} // verus!
