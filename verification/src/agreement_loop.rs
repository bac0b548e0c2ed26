//! The loop of the program goes round as the state machine of [`crate::driver`] does.

use vstd::prelude::*;

use crate::agreement;
use crate::agreement_rounds;
use crate::code::{Cond, Do, Stmt, Value};
use crate::driver::{self, ArmState, JoinView, Phase};
use crate::expansion::{Name, Part};
use crate::expansion;
use crate::laws;
use crate::lemmas;
use crate::meaning::{Flow, Mem};
use crate::meaning;
use crate::meaning_lemmas;
use crate::program;
use crate::syntax::JoinMeMaybeArm;
use crate::world::World;
use crate::world;

verus! {

/// The variables once a body has been started are what the state machine says.
pub proof fn lemma_started<V>(
    m: Mem<V>,
    w: World<V>,
    arms: Seq<JoinMeMaybeArm>,
    i: usize,
    k: Mem<V>,
)
    requires
        m.flow is On,
        agreement_rounds::at_bodies(m, w, arms),
        m.body is None,
        i < arms.len(),
        w.s.first_startable() == i,
        w.s.arms[i as int].spec_startable(),
        ({
            let shape = arms[i as int].spec_shape();
            let arm = m.arms[i as int];
            let started = agreement_rounds::started(m, shape, i);
            k == if m.replies.len() == 0 {
                started
            } else if arm.item is Some {
                agreement_rounds::flags_set(
                    Mem {
                        consumed: m.consumed || (shape.spec_is_stream() && arm.spec_feeds()),
                        ..started
                    },
                    shape,
                    i,
                )
            } else {
                agreement_rounds::flags_set(
                    started.set(i, ArmState { should_run_finally: false, ..arm }),
                    shape,
                    i,
                )
            }
        }),
    ensures
        m.replies.len() == 0 ==> agreement::ended(k, w.advance()),
        m.replies.len() > 0 ==> {
            &&& k.flow is Continue
            &&& agreement_rounds::at_bodies(k, w.advance(), arms)
            &&& k.replies.len() < m.replies.len()
        },
{
    let s = w.s;
    let v = w.advance();
    let shape = arms[i as int].spec_shape();
    let arm = m.arms[i as int];
    assert(arm == agreement::forget(s.arms[i as int]));
    world::lemma_advance_keeps_wf(w);
    let t = s.start(i as int).0;
    let started = agreement_rounds::started(m, shape, i);
    agreement::lemma_held(m.arms, s.arms);
    assert(meaning::held(t.arms) =~= meaning::held(s.arms));
    if arm.item is Some {
        assert(meaning::held(m.arms.update(i as int, ArmState { item: None, ..arm })) =~= meaning::held(
            m.arms,
        ));
    }
    if m.replies.len() > 0 {
        assert(agreement::same_arms(k.arms, v.s.arms));
        assert forall|j: int| 0 <= j < arms.len() implies (#[trigger] k.arms[j]).shape
            == arms[j].spec_shape() by {
            assert(m.arms[j].shape == arms[j].spec_shape());
        }
    }
}

/// Starting a body of one arm, if it has one to start.
pub proof fn lemma_try<V>(
    m: Mem<V>,
    w: World<V>,
    arms: Seq<JoinMeMaybeArm>,
    i: usize,
) -> (v: World<V>)
    requires
        m.flow is On,
        agreement_rounds::at_bodies(m, w, arms),
        expansion::has_bodies(arms),
        m.body is None,
        i < arms.len(),
        forall|j: int| 0 <= j < i ==> !(#[trigger] w.s.arms[j]).spec_startable(),
    ensures
        ({
            let k = meaning::run(program::try_body(arms[i as int].spec_shape(), i), m);
            &&& w.reaches(v)
            &&& {
                ||| agreement::ended(k, v)
                ||| k == m && v == w && !w.s.arms[i as int].spec_startable()
                ||| k.flow is Continue && agreement_rounds::at_bodies(k, v, arms)
                    && k.replies.len() < m.replies.len()
            }
        }),
{
    let s = w.s;
    let shape = arms[i as int].spec_shape();
    assert(m.arms[i as int] == agreement::forget(s.arms[i as int]));
    assert(s.arms[i as int].wf());
    assert(m.function is Some && m.module is Some) by {
        reveal(agreement::set_up);
    }
    let (module, params, variants) = m.module->0;
    let runner = agreement::Runner { function: m.function->0, module, params, variants };
    assert(module == Name::PrivateModule && agreement::bodies_fit(runner, arms[i as int], i)) by {
        reveal(agreement::set_up);
    }
    agreement::lemma_celled(m, arms, i);
    agreement_rounds::lemma_try_body(m, shape, i);
    world::lemma_reaches_itself(w);
    if s.arms[i as int].spec_startable() {
        lemmas::lemma_first_startable(s);
        assert(s.first_startable() == i) by {
            let j = s.first_startable();
            if j < i {
                assert(!s.arms[j].spec_startable());
            }
        }
        lemma_started(
            m,
            w,
            arms,
            i,
            meaning::run(program::try_body(shape, i), m),
        );
        world::lemma_reaches_next(w);
        w.advance()
    } else {
        w
    }
}

/// Starting a body of one of the first `n` arms, if one has a body to start.
pub proof fn lemma_tries<V>(
    m: Mem<V>,
    w: World<V>,
    arms: Seq<JoinMeMaybeArm>,
    n: nat,
) -> (v: World<V>)
    requires
        m.flow is On,
        agreement_rounds::at_bodies(m, w, arms),
        expansion::has_bodies(arms),
        m.body is None,
        n <= arms.len(),
    ensures
        ({
            let outline = expansion::outline(arms);
            let k = meaning::run(program::parts(Part::TryBody, arms, n, outline), m);
            &&& w.reaches(v)
            &&& {
                ||| agreement::ended(k, v)
                ||| k == m && v == w && forall|j: int|
                    0 <= j < n ==> !(#[trigger] w.s.arms[j]).spec_startable()
                ||| k.flow is Continue && agreement_rounds::at_bodies(k, v, arms)
                    && k.replies.len() < m.replies.len()
            }
        }),
    decreases n,
{
    let outline = expansion::outline(arms);
    if n == 0 {
        meaning_lemmas::lemma_run_skip(m);
        world::lemma_reaches_itself(w);
        w
    } else {
        let i = (n - 1) as usize;
        let before = program::parts(Part::TryBody, arms, (n - 1) as nat, outline);
        let last = program::part(Part::TryBody, arms[n - 1], i, outline);
        let u = lemma_tries(m, w, arms, (n - 1) as nat);
        meaning_lemmas::lemma_run_then(before, last, m);
        if meaning::run(before, m).flow is On {
            lemma_try(m, w, arms, i)
        } else {
            u
        }
    }
}

/// Dropping the body that has run, and starting the next.
pub proof fn lemma_next_body<V>(m: Mem<V>, w: World<V>, arms: Seq<JoinMeMaybeArm>) -> (v: World<V>)
    requires
        m.flow is On,
        agreement_rounds::at_bodies(Mem { body: None, ..m }, w, arms),
        expansion::has_bodies(arms),
    ensures
        ({
            let k = meaning::run(program::next_body(arms, expansion::outline(arms)), m);
            &&& w.reaches(v)
            &&& {
                ||| agreement::ended(k, v)
                ||| k.flow is Break && agreement_rounds::at_sweep(k, v, arms) && k.replies
                    == m.replies && k.consumed == m.consumed && k.next == m.next
                ||| k.flow is Continue && agreement_rounds::at_bodies(k, v, arms)
                    && k.replies.len() < m.replies.len()
            }
        }),
{
    let outline = expansion::outline(arms);
    let none = Mem { body: None, ..m };
    let drop_body = program::seq(
        program::drop_body(),
        program::step(Do::Assign(Name::RunBodyFuture, Value::Nothing)),
    );
    assert(meaning::run(drop_body, m) == none) by {
        broadcast use meaning_lemmas::group_meaning;

    }
    let tries = program::parts(Part::TryBody, arms, arms.len(), outline);
    let check = program::when(Cond::Empty(Name::RunBodyFuture), program::step(Do::Break));
    let k = meaning::run(tries, none);
    let u = lemma_tries(none, w, arms, arms.len());
    agreement_rounds::lemma_run_two(drop_body, tries, m, none);
    agreement_rounds::lemma_run_two(program::seq(drop_body, tries), check, m, k);
    if k.flow is On {
        assert(meaning::run(check, k) == Mem { flow: Flow::Break, ..k }) by {
            broadcast use meaning_lemmas::group_meaning;

        }
        lemmas::lemma_first_startable(w.s);
        world::lemma_reaches_next(w);
        world::lemma_advance_keeps_wf(w);
        w.advance()
    } else {
        u
    }
}

/// Whether the program has taken a reply, or else has not changed where polling goes on and
/// whether an item was consumed.
pub open spec fn idle_or_less<V>(m: Mem<V>, k: Mem<V>) -> bool {
    ||| k.replies.len() < m.replies.len()
    ||| k.replies.len() == m.replies.len() && k.consumed == m.consumed && k.next == m.next
}

/// One round of the bodies.
pub proof fn lemma_run_bodies<V>(m: Mem<V>, w: World<V>, arms: Seq<JoinMeMaybeArm>) -> (v: World<V>)
    requires
        m.flow is On,
        agreement_rounds::at_bodies(m, w, arms),
        expansion::has_bodies(arms),
    ensures
        ({
            let k = meaning::run(program::run_bodies(arms, expansion::outline(arms)), m);
            &&& w.reaches(v)
            &&& {
                ||| agreement::ended(k, v)
                ||| k.flow is Break && agreement_rounds::at_sweep(k, v, arms) && idle_or_less(m, k)
                ||| k.flow is Continue && agreement_rounds::at_bodies(k, v, arms)
                    && k.replies.len() < m.replies.len()
            }
        }),
{
    let outline = expansion::outline(arms);
    let first = program::drop_cancelled_body(outline.total);
    let poll = program::poll_body(outline.total);
    let next = program::next_body(arms, outline);
    let a = meaning::run(first, m);
    let u = agreement_rounds::lemma_drop_cancelled_body(m, w, arms);
    agreement_rounds::lemma_run_two(first, poll, m, a);
    let b = meaning::run(poll, a);
    agreement_rounds::lemma_run_two(program::seq(first, poll), next, m, b);
    if a.body is Some {
        let x = agreement_rounds::lemma_poll_body(a, u, arms);
        world::lemma_reaches_on(w, u, x);
        if b.flow is On {
            let y = lemma_next_body(b, x, arms);
            world::lemma_reaches_on(w, x, y);
            y
        } else {
            x
        }
    } else {
        assert(b == a) by {
            broadcast use meaning_lemmas::group_meaning;

        }
        assert(Mem { body: None, ..b } == b);
        let y = lemma_next_body(b, u, arms);
        world::lemma_reaches_on(w, u, y);
        y
    }
}

/// Running the bodies until none is left or one waits.
pub proof fn lemma_bodies_loop<V>(
    m: Mem<V>,
    w: World<V>,
    arms: Seq<JoinMeMaybeArm>,
    idle: nat,
) -> (v: World<
    V,
>)
    requires
        m.flow is On,
        agreement_rounds::at_bodies(m, w, arms),
        expansion::has_bodies(arms),
    ensures
        ({
            let stmt = program::run_bodies(arms, expansion::outline(arms));
            let k = meaning::rounds(stmt, m, idle);
            &&& w.reaches(v)
            &&& {
                ||| agreement::ended(k, v)
                ||| k.flow is On && agreement_rounds::at_sweep(k, v, arms) && idle_or_less(m, k)
            }
        }),
    decreases m.replies.len(),
{
    let stmt = program::run_bodies(arms, expansion::outline(arms));
    let k = meaning::run(stmt, m);
    let u = lemma_run_bodies(m, w, arms);
    reveal_with_fuel(meaning::rounds, 2);
    if k.flow is Continue {
        let v = lemma_bodies_loop(Mem { flow: Flow::On, ..k }, u, arms, 2);
        world::lemma_reaches_on(w, u, v);
        v
    } else {
        u
    }
}

/// Running the bodies, then dropping what is cancelled.
pub proof fn lemma_run_and_sweep<V>(
    m: Mem<V>,
    w: World<V>,
    arms: Seq<JoinMeMaybeArm>,
) -> (v: World<V>)
    requires
        m.flow is On,
        agreement_rounds::at_bodies(m, w, arms),
        expansion::has_bodies(arms),
    ensures
        ({
            let stmt = program::run_and_sweep(arms, expansion::outline(arms));
            let k = meaning::run(Stmt::Loop(Box::new(stmt)), m);
            &&& w.reaches(v)
            &&& {
                ||| agreement::ended(k, v)
                ||| k.flow is On && agreement_rounds::at_sweep(k, v, arms) && idle_or_less(m, k)
                    && v.s.first_to_drop() == arms.len()
            }
        }),
{
    let outline = expansion::outline(arms);
    let bodies = program::run_bodies(arms, outline);
    let inner = Stmt::Loop(Box::new(bodies));
    let drop = program::drop_cancelled(arms, outline);
    let bic = program::body_is_cancelled(outline.total);
    let cond = program::not(
        program::paren(program::and(Cond::Filled(Name::RunBodyFuture), bic)),
    );
    let check = program::when(cond, program::step(Do::Break));
    let stmt = program::run_and_sweep(arms, outline);
    let a = meaning::rounds(bodies, m, 2);
    let u = lemma_bodies_loop(m, w, arms, 2);
    meaning_lemmas::lemma_run_loop(bodies, m);
    meaning_lemmas::lemma_run_loop(stmt, m);
    reveal_with_fuel(meaning::rounds, 2);
    agreement_rounds::lemma_run_two(inner, drop, m, a);
    let b = meaning::run(drop, a);
    if a.flow is On {
        let v = agreement_rounds::lemma_drop(a, u, arms);
        world::lemma_reaches_on(w, u, v);
        agreement_rounds::lemma_run_two(program::seq(inner, drop), check, m, b);
        assert(!v.s.body_gone());
        if b.body is Some {
            agreement_rounds::lemma_body_is_cancelled(b, v.s, arms);
        }
        assert(meaning::run(check, b) == Mem { flow: Flow::Break, ..b }) by {
            meaning_lemmas::lemma_run_if(cond, program::step(Do::Break), b);
            meaning_lemmas::lemma_holds_not(
                program::paren(program::and(Cond::Filled(Name::RunBodyFuture), bic)),
                b,
            );
            meaning_lemmas::lemma_holds_paren(
                program::and(Cond::Filled(Name::RunBodyFuture), bic),
                b,
            );
            meaning_lemmas::lemma_holds_and(Cond::Filled(Name::RunBodyFuture), bic, b);
            meaning_lemmas::lemma_holds_filled(Name::RunBodyFuture, b);
            meaning_lemmas::lemma_run_simple(Do::Break, b);
            meaning_lemmas::lemma_carry_out_break(b);
        }
        v
    } else {
        agreement_rounds::lemma_run_two(program::seq(inner, drop), check, m, a);
        u
    }
}

/// The values that the program gives are those of the state machine.
pub proof fn lemma_outputs<V>(m: Mem<V>, s: JoinView<V>, arms: Seq<JoinMeMaybeArm>, n: nat)
    requires
        agreement::same_arms(m.arms, s.arms),
        m.arms.len() == arms.len() <= usize::MAX,
        n <= arms.len(),
        forall|i: int|
            0 <= i < arms.len() ==> (#[trigger] m.arms[i]).shape == arms[i].spec_shape(),
        s.wf(),
        s.phase == Phase::Done,
    ensures
        meaning::outputs(program::values(arms, n), m) == Some(
            s.arms.map_values(|arm: ArmState<V>| driver::output_of(arm)).take(n as int),
        ),
    decreases n,
{
    let all = s.arms.map_values(|arm: ArmState<V>| driver::output_of(arm));
    reveal_with_fuel(meaning::outputs, 2);
    if n == 0 {
        assert(all.take(0) =~= Seq::empty());
    } else {
        lemma_outputs(m, s, arms, (n - 1) as nat);
        laws::done_has_values(s);
        let i = n - 1;
        assert(m.arms[i] == agreement::forget(s.arms[i]));
        assert(s.arms[i].wf());
        assert(all.take(n as int) =~= all.take(i).push(driver::output_of(s.arms[i])));
    }
}

} // verus!
