//! An expansion does what the state machine of [`crate::driver`] says, whatever the world replies.

use vstd::prelude::*;

use crate::agreement;
use crate::agreement_rounds;
use crate::agreement_turns;
use crate::code::{Do, Handle, Params, Stmt, Value};
use crate::driver::{self, ArmState, JoinView};
use crate::expansion::{Name, Outline, Part};
use crate::expansion;
use crate::laws;
use crate::meaning::{Function, Mem, Reply};
use crate::meaning;
use crate::meaning_lemmas;
use crate::program;
use crate::shape::ArmShape;
use crate::spelling;
use crate::syntax::{JoinMeMaybeArm, Region};
use crate::words::Words;
use crate::words;
use crate::world::World;
use crate::world;

verus! {

/// Whether no two arms have the same label.
pub open spec fn labels_differ(arms: Seq<JoinMeMaybeArm>) -> bool {
    forall|i: int, j: int|
        0 <= i < j < arms.len() && (#[trigger] arms[i]).cancel_label is Some ==> arms[i].cancel_label
            != (#[trigger] arms[j]).cancel_label
}

/// The cancellers of the first `n` arms, by label.
pub open spec fn handles(arms: Seq<JoinMeMaybeArm>, n: nat) -> Map<usize, Handle>
    decreases n,
{
    if n == 0 {
        Map::empty()
    } else {
        let before = handles(arms, (n - 1) as nat);
        match arms[n - 1].cancel_label {
            Some(label) => before.insert(
                label,
                program::handle(arms[n - 1].is_maybe, (n - 1) as usize),
            ),
            None => before,
        }
    }
}

proof fn lemma_handles(arms: Seq<JoinMeMaybeArm>, n: nat)
    requires
        labels_differ(arms),
        n <= arms.len() <= usize::MAX,
    ensures
        forall|i: int|
            0 <= i < n && (#[trigger] arms[i]).cancel_label is Some ==> handles(
                arms,
                n,
            ).contains_key(arms[i].cancel_label->0) && handles(arms, n)[arms[i].cancel_label->0]
                == program::handle(arms[i].is_maybe, i as usize),
    decreases n,
{
    if n > 0 {
        lemma_handles(arms, (n - 1) as nat);
        assert forall|i: int| 0 <= i < n && (#[trigger] arms[i]).cancel_label is Some implies handles(
            arms,
            n,
        ).contains_key(arms[i].cancel_label->0) && handles(arms, n)[arms[i].cancel_label->0]
            == program::handle(arms[i].is_maybe, i as usize) by {
            if i < n - 1 {
                assert(arms[i].cancel_label != arms[n - 1].cancel_label);
            }
        }
    }
}

/// The variables of the first `n` arms have their values.
pub open spec fn pinned_arms<V>(arms: Seq<JoinMeMaybeArm>, n: nat) -> Seq<ArmState<V>> {
    Seq::new(
        arms.len(),
        |i: int|
            if i < n {
                ArmState::<V>::initial(arms[i].spec_shape())
            } else {
                ArmState { live: false, ..ArmState::<V>::initial(arms[i].spec_shape()) }
            },
    )
}

/// What stands for the futures and streams of the first `n` arms.
pub open spec fn inputs(arms: Seq<JoinMeMaybeArm>, n: nat) -> Map<usize, Region>
    decreases n,
{
    if n == 0 {
        Map::empty()
    } else {
        inputs(arms, (n - 1) as nat).insert(
            (n - 1) as usize,
            expansion::scrutinee(arms[n - 1].kind),
        )
    }
}

proof fn lemma_inputs(arms: Seq<JoinMeMaybeArm>, n: nat)
    requires
        n <= arms.len() <= usize::MAX,
    ensures
        forall|i: int|
            0 <= i < n ==> inputs(arms, n).contains_key(i as usize) && inputs(arms, n)[i as usize]
                == expansion::scrutinee((#[trigger] arms[i]).kind),
    decreases n,
{
    if n > 0 {
        lemma_inputs(arms, (n - 1) as nat);
    }
}

/// Whether the futures and streams of the first `n` arms are kept in cells.
pub open spec fn kept(arms: Seq<JoinMeMaybeArm>, n: nat) -> Map<usize, bool>
    decreases n,
{
    if n == 0 {
        Map::empty()
    } else {
        kept(arms, (n - 1) as nat).insert((n - 1) as usize, arms[n - 1].cancel_label is Some)
    }
}

proof fn lemma_kept(arms: Seq<JoinMeMaybeArm>, n: nat)
    requires
        n <= arms.len() <= usize::MAX,
    ensures
        forall|i: int|
            0 <= i < n ==> kept(arms, n).contains_key(i as usize) && kept(arms, n)[i as usize] == (
            (#[trigger] arms[i]).cancel_label is Some),
    decreases n,
{
    if n > 0 {
        lemma_kept(arms, (n - 1) as nat);
    }
}

/// The arms that the labels of the first `n` arms belong to.
pub open spec fn owners(arms: Seq<JoinMeMaybeArm>, n: nat) -> Map<usize, Name>
    decreases n,
{
    if n == 0 {
        Map::empty()
    } else {
        let before = owners(arms, (n - 1) as nat);
        match arms[n - 1].cancel_label {
            Some(label) => before.insert(label, Name::Arm((n - 1) as usize)),
            None => before,
        }
    }
}

proof fn lemma_owners(arms: Seq<JoinMeMaybeArm>, n: nat)
    requires
        labels_differ(arms),
        n <= arms.len() <= usize::MAX,
    ensures
        forall|i: int|
            0 <= i < n && (#[trigger] arms[i]).cancel_label is Some ==> owners(
                arms,
                n,
            ).contains_key(arms[i].cancel_label->0) && owners(arms, n)[arms[i].cancel_label->0]
                == Name::Arm(i as usize),
    decreases n,
{
    if n > 0 {
        lemma_owners(arms, (n - 1) as nat);
        assert forall|i: int| 0 <= i < n && (#[trigger] arms[i]).cancel_label is Some implies owners(
            arms,
            n,
        ).contains_key(arms[i].cancel_label->0) && owners(arms, n)[arms[i].cancel_label->0]
            == Name::Arm(i as usize) by {
            if i < n - 1 {
                assert(arms[i].cancel_label != arms[n - 1].cancel_label);
            }
        }
    }
}

proof fn lemma_cancellers<V>(m: Mem<V>, arms: Seq<JoinMeMaybeArm>, n: nat, outline: Outline)
    requires
        m.flow is On,
        m.arms == pinned_arms::<V>(arms, 0),
        m.labels == Map::<usize, Handle>::empty(),
        n <= arms.len() <= usize::MAX,
    ensures
        meaning::run(program::parts(Part::Canceller, arms, n, outline), m) == (Mem {
            labels: handles(arms, n),
            ..m
        }),
    decreases n,
{
    if n == 0 {
        meaning_lemmas::lemma_run_skip(m);
    } else {
        let i = (n - 1) as usize;
        let before = program::parts(Part::Canceller, arms, (n - 1) as nat, outline);
        let last = program::part(Part::Canceller, arms[n - 1], i, outline);
        lemma_cancellers(m, arms, (n - 1) as nat, outline);
        let k = Mem { labels: handles(arms, (n - 1) as nat), ..m };
        agreement_rounds::lemma_run_two(before, last, m, k);
        lemma_canceller(k, arms[n - 1], i);
    }
}

/// The flags of an arm with a label start out unset, and its label stands for its canceller.
proof fn lemma_canceller<V>(m: Mem<V>, arm: JoinMeMaybeArm, i: usize)
    requires
        m.flow is On,
        i < m.arms.len(),
        !m.arms[i as int].cancelled,
        !m.arms[i as int].finished,
    ensures
        meaning::run(program::canceller(arm, i), m) == match arm.cancel_label {
            Some(label) => Mem {
                labels: m.labels.insert(label, program::handle(arm.is_maybe, i)),
                ..m
            },
            None => m,
        },
{
    broadcast use meaning_lemmas::group_meaning;

    let k = meaning::run(program::canceller(arm, i), m);
    assert(k.arms =~= m.arms);
}

proof fn lemma_scrutinee<V>(m: Mem<V>, arm: JoinMeMaybeArm, i: usize)
    requires
        m.flow is On,
        i < m.arms.len(),
        m.arms[i as int] == (ArmState {
            live: false,
            ..ArmState::<V>::initial(arm.spec_shape())
        }),
    ensures
        meaning::run(
            program::seq(program::pinned(arm, i), program::variables(arm.spec_shape().kind, i)),
            m,
        ) == (Mem {
            pinned: m.pinned.insert(i, expansion::scrutinee(arm.kind)),
            cells: m.cells.insert(i, arm.cancel_label is Some),
            ..m.set(i, ArmState::<V>::initial(arm.spec_shape()))
        }),
{
    broadcast use meaning_lemmas::group_meaning;

    let k = Mem {
        pinned: m.pinned.insert(i, expansion::scrutinee(arm.kind)),
        cells: m.cells.insert(i, arm.cancel_label is Some),
        ..m.set(i, ArmState::<V>::initial(arm.spec_shape()))
    };
    let pinned = program::pinned(arm, i);
    let variables = program::variables(arm.spec_shape().kind, i);
    assert(m.cells.insert(i, false).insert(i, true) =~= m.cells.insert(i, true));
    assert(meaning::run(pinned, m) == k);
    agreement_rounds::lemma_run_two(pinned, variables, m, k);
    let n = meaning::run(variables, k);
    assert(n.arms =~= k.arms);
}

proof fn lemma_scrutinees<V>(m: Mem<V>, arms: Seq<JoinMeMaybeArm>, n: nat, outline: Outline)
    requires
        m.flow is On,
        m.arms == pinned_arms::<V>(arms, 0),
        m.pinned == Map::<usize, Region>::empty(),
        m.cells == Map::<usize, bool>::empty(),
        n <= arms.len() <= usize::MAX,
    ensures
        meaning::run(program::parts(Part::Scrutinee, arms, n, outline), m) == (Mem {
            arms: pinned_arms(arms, n),
            pinned: inputs(arms, n),
            cells: kept(arms, n),
            ..m
        }),
    decreases n,
{
    if n == 0 {
        meaning_lemmas::lemma_run_skip(m);
    } else {
        let i = (n - 1) as usize;
        let before = program::parts(Part::Scrutinee, arms, (n - 1) as nat, outline);
        let last = program::part(Part::Scrutinee, arms[n - 1], i, outline);
        lemma_scrutinees(m, arms, (n - 1) as nat, outline);
        let k = Mem {
            arms: pinned_arms(arms, (n - 1) as nat),
            pinned: inputs(arms, (n - 1) as nat),
            cells: kept(arms, (n - 1) as nat),
            ..m
        };
        agreement_rounds::lemma_run_two(before, last, m, k);
        lemma_scrutinee(k, arms[n - 1], i);
        assert(k.set(i, ArmState::<V>::initial(arms[n - 1].spec_shape())).arms =~= pinned_arms(
            arms,
            n,
        ));
    }
}

proof fn lemma_cancellers_mut<V>(m: Mem<V>, arms: Seq<JoinMeMaybeArm>, n: nat, outline: Outline)
    requires
        m.flow is On,
        m.labels_mut == Map::<usize, Handle>::empty(),
        m.reached == Map::<usize, Name>::empty(),
        n <= arms.len() <= usize::MAX,
    ensures
        meaning::run(program::parts(Part::CancellerMut, arms, n, outline), m) == (Mem {
            labels_mut: handles(arms, n),
            reached: owners(arms, n),
            ..m
        }),
    decreases n,
{
    broadcast use meaning_lemmas::group_meaning;

    if n > 0 {
        let i = (n - 1) as usize;
        let before = program::parts(Part::CancellerMut, arms, (n - 1) as nat, outline);
        let last = program::part(Part::CancellerMut, arms[n - 1], i, outline);
        lemma_cancellers_mut(m, arms, (n - 1) as nat, outline);
        let k = Mem {
            labels_mut: handles(arms, (n - 1) as nat),
            reached: owners(arms, (n - 1) as nat),
            ..m
        };
        agreement_rounds::lemma_run_two(before, last, m, k);
    }
}

proof fn lemma_has_param(arms: Seq<JoinMeMaybeArm>, n: nat, i: int)
    requires
        0 <= i < n <= arms.len() <= usize::MAX,
        arms[i].spec_shape().spec_has_body(),
    ensures
        meaning::has_param(program::params(arms, n), Name::TypeParam(i as usize)),
    decreases n,
{
    reveal_with_fuel(meaning::has_param, 2);
    if i < n - 1 {
        lemma_has_param(arms, (n - 1) as nat, i);
    }
}

proof fn lemma_declared(params: Params, arms: Seq<JoinMeMaybeArm>, n: nat, i: int)
    requires
        0 <= i < n <= arms.len() <= usize::MAX,
        arms[i].spec_shape().spec_has_body(),
        meaning::has_param(params, Name::TypeParam(i as usize)),
    ensures
        meaning::declared(
            params,
            program::variants(arms, n),
            Name::Variant(i as usize),
            true,
        ),
        arms[i].spec_shape().spec_has_finally() ==> meaning::declared(
            params,
            program::variants(arms, n),
            Name::FinallyVariant(i as usize),
            false,
        ),
    decreases n,
{
    reveal_with_fuel(meaning::declared, 3);
    if i < n - 1 {
        lemma_declared(params, arms, (n - 1) as nat, i);
    }
}

/// The function that runs the bodies of the first `n` arms.
proof fn lemma_bodies_fit(runner: agreement::Runner, arms: Seq<JoinMeMaybeArm>, n: nat, i: int)
    requires
        runner.function.arms == program::body_arms(arms, n),
        runner.module == Name::PrivateModule,
        0 <= i < n <= arms.len() <= usize::MAX,
        arms[i].spec_shape().spec_has_body() ==> meaning::declared(
            runner.params,
            runner.variants,
            Name::Variant(i as usize),
            true,
        ),
        arms[i].spec_shape().spec_has_finally() ==> meaning::declared(
            runner.params,
            runner.variants,
            Name::FinallyVariant(i as usize),
            false,
        ),
    ensures
        agreement::bodies_fit(runner, arms[i], i as usize),
    decreases n,
{
    reveal_with_fuel(meaning::body_arm, 3);
    if i < n - 1 {
        let function = Function {
            arms: program::body_arms(arms, (n - 1) as nat),
            ..runner.function
        };
        lemma_bodies_fit(agreement::Runner { function, ..runner }, arms, (n - 1) as nat, i);
    }
}

proof fn lemma_body_variables<V>(m: Mem<V>)
    requires
        m.flow is On,
        m.body is None,
        !m.body_is_maybe,
        m.body_flag is None,
        m.next == 0,
        !m.consumed,
    ensures
        meaning::run(program::body_variables(), m) == m,
{
    broadcast use meaning_lemmas::group_meaning;

    assert(Mem { body: None, ..m } == m);
    assert(Mem { body_is_maybe: false, ..m } == m);
    assert(Mem { body_flag: None, ..m } == m);
    assert(Mem { next: 0, ..m } == m);
    assert(Mem { consumed: false, ..m } == m);
}

/// The variables once everything has been set up.
pub open spec fn ready<V>(arms: Seq<JoinMeMaybeArm>, replies: Seq<Reply<V>>) -> Mem<V> {
    let bodies = expansion::has_bodies(arms);
    Mem {
        arms: pinned_arms(arms, arms.len()),
        pinned: inputs(arms, arms.len()),
        cells: kept(arms, arms.len()),
        labels: handles(arms, arms.len()),
        labels_mut: if bodies {
            handles(arms, arms.len())
        } else {
            Map::empty()
        },
        reached: if bodies {
            owners(arms, arms.len())
        } else {
            Map::empty()
        },
        module: if bodies {
            Some(
                (
                    Name::PrivateModule,
                    program::params(arms, arms.len()),
                    program::variants(arms, arms.len()),
                ),
            )
        } else {
            None
        },
        function: if bodies {
            Some(
                Function {
                    arms: program::body_arms(arms, arms.len()),
                    flag: Name::RunBodyNoReturn,
                    value: true,
                    labels: handles(arms, arms.len()),
                    reached: owners(arms, arms.len()),
                },
            )
        } else {
            None
        },
        ..meaning::blank(arms, replies)
    }
}

proof fn lemma_run_body_items<V>(m: Mem<V>, arms: Seq<JoinMeMaybeArm>, outline: Outline)
    requires
        m.flow is On,
        m.labels_mut == Map::<usize, Handle>::empty(),
        m.reached == Map::<usize, Name>::empty(),
        arms.len() <= usize::MAX,
        m.body is None,
        !m.body_is_maybe,
        m.body_flag is None,
        m.next == 0,
        !m.consumed,
        !m.no_return,
    ensures
        meaning::run(program::run_body_items(arms, outline), m) == (Mem {
            labels_mut: handles(arms, arms.len()),
            reached: owners(arms, arms.len()),
            module: Some(
                (
                    Name::PrivateModule,
                    program::params(arms, arms.len()),
                    program::variants(arms, arms.len()),
                ),
            ),
            function: Some(
                Function {
                    arms: program::body_arms(arms, arms.len()),
                    flag: Name::RunBodyNoReturn,
                    value: true,
                    labels: handles(arms, arms.len()),
                    reached: owners(arms, arms.len()),
                },
            ),
            ..m
        }),
{
    let n = arms.len();
    let module = Stmt::Module(
        Name::PrivateModule,
        program::params(arms, n),
        program::variants(arms, n),
    );
    let labels = program::parts(Part::CancellerMut, arms, n, outline);
    let flag = program::step(Do::Let(Name::RunBodyNoReturn, Value::NewFlag));
    let bodies = program::body_arms(arms, n);
    let function = Stmt::Function(
        Name::RunBodyFn,
        Name::Item,
        bodies,
        Name::RunBodyNoReturn,
        true,
    );
    let variables = program::body_variables();
    meaning_lemmas::lemma_run_module(
        Name::PrivateModule,
        program::params(arms, n),
        program::variants(arms, n),
        m,
    );
    let declared = Mem {
        module: Some((Name::PrivateModule, program::params(arms, n), program::variants(arms, n))),
        ..m
    };
    let a = Mem { labels_mut: handles(arms, n), reached: owners(arms, n), ..declared };
    lemma_cancellers_mut(declared, arms, n, outline);
    agreement_rounds::lemma_run_two(module, labels, m, declared);
    let s1 = program::seq(module, labels);
    assert(meaning::run(flag, a) == a) by {
        broadcast use meaning_lemmas::group_meaning;

        assert(Mem { no_return: false, ..a } == a);
    }
    agreement_rounds::lemma_run_two(s1, flag, m, a);
    let s2 = program::seq(s1, flag);
    let b = Mem {
        function: Some(
            Function {
                arms: bodies,
                flag: Name::RunBodyNoReturn,
                value: true,
                labels: handles(arms, n),
                reached: owners(arms, n),
            },
        ),
        ..a
    };
    meaning_lemmas::lemma_run_function(
        Name::RunBodyFn,
        Name::Item,
        bodies,
        Name::RunBodyNoReturn,
        true,
        a,
    );
    agreement_rounds::lemma_run_two(s2, function, m, a);
    lemma_body_variables(b);
    agreement_rounds::lemma_run_two(program::seq(s2, function), variables, m, b);
}

proof fn lemma_beginning<V>(arms: Seq<JoinMeMaybeArm>, replies: Seq<Reply<V>>)
    requires
        arms.len() <= usize::MAX,
    ensures
        meaning::run(
            program::beginning(arms, expansion::outline(arms)),
            meaning::blank(arms, replies),
        ) == ready(arms, replies),
{
    let outline = expansion::outline(arms);
    let n = arms.len();
    let m = meaning::blank(arms, replies);
    assert(m.arms =~= pinned_arms::<V>(arms, 0));
    let count = program::step(Do::Let(Name::DefinitelyFinishedCount, Value::NewCount));
    assert(meaning::run(count, m) == m) by {
        broadcast use meaning_lemmas::group_meaning;

        assert(Mem { count: 0, ..m } == m);
    }
    let cancellers = program::parts(Part::Canceller, arms, n, outline);
    let scrutinees = program::parts(Part::Scrutinee, arms, n, outline);
    let a = Mem { labels: handles(arms, n), ..m };
    lemma_cancellers(m, arms, n, outline);
    agreement_rounds::lemma_run_two(count, cancellers, m, m);
    let s1 = program::seq(count, cancellers);
    let b = Mem {
        arms: pinned_arms(arms, n),
        pinned: inputs(arms, n),
        cells: kept(arms, n),
        ..a
    };
    lemma_scrutinees(a, arms, n, outline);
    agreement_rounds::lemma_run_two(s1, scrutinees, m, a);
    let s2 = program::seq(s1, scrutinees);
    if outline.bodies {
        lemma_run_body_items(b, arms, outline);
        agreement_rounds::lemma_run_two(s2, program::run_body_items(arms, outline), m, b);
    }
}

/// The shapes of the arms.
pub open spec fn shapes(arms: Seq<JoinMeMaybeArm>) -> Seq<ArmShape> {
    arms.map_values(|arm: JoinMeMaybeArm| arm.spec_shape())
}

proof fn lemma_totals<V>(arms: Seq<JoinMeMaybeArm>, states: Seq<ArmState<V>>)
    requires
        states.len() == arms.len(),
        forall|i: int|
            0 <= i < arms.len() ==> (#[trigger] states[i]).shape == arms[i].spec_shape(),
    ensures
        expansion::total_definitely(arms) == driver::definite_count(states),
    decreases arms.len(),
{
    if arms.len() > 0 {
        assert(states[arms.len() - 1].shape == arms[arms.len() - 1].spec_shape());
        assert forall|i: int| 0 <= i < arms.drop_last().len() implies (
        #[trigger] states.drop_last()[i]).shape == arms.drop_last()[i].spec_shape() by {
            assert(states[i].shape == arms[i].spec_shape());
        }
        lemma_totals(arms.drop_last(), states.drop_last());
    }
}

/// Whether the replies cancel only arms that have a label.
pub open spec fn fair<V>(arms: Seq<JoinMeMaybeArm>, replies: Seq<Reply<V>>) -> bool {
    forall|k: int, c: int|
        0 <= k < replies.len() && 0 <= c < replies[k].cancels.len() ==> (
        #[trigger] replies[k].cancels[c]) < arms.len()
            && arms[replies[k].cancels[c] as int].cancel_label is Some
}

/// A join of these arms at its start, among these replies.
pub open spec fn start<V>(arms: Seq<JoinMeMaybeArm>, replies: Seq<Reply<V>>) -> World<V> {
    World { s: JoinView::initial(shapes(arms)), replies, log: Seq::empty() }
}

/// Whether a program takes the same actions on these replies as the state machine, in the same
/// order, holding the same futures, streams and body at each of them, and comes to the same end.
pub open spec fn agrees<V>(
    program: Stmt,
    arms: Seq<JoinMeMaybeArm>,
    replies: Seq<Reply<V>>,
) -> bool {
    exists|n: nat|
        agreement::ended(
            meaning::run(program, meaning::blank(arms, replies)),
            #[trigger] start(arms, replies).steps(n),
        )
}

pub proof fn lemma_ready<V>(arms: Seq<JoinMeMaybeArm>, replies: Seq<Reply<V>>)
    requires
        arms.len() <= usize::MAX,
        labels_differ(arms),
        fair(arms, replies),
    ensures
        agreement::meets(ready(arms, replies), start(arms, replies), arms),
{
    let m = ready(arms, replies);
    let w = start(arms, replies);
    laws::initial_is_wf::<V>(shapes(arms));
    lemma_handles(arms, arms.len());
    lemma_totals(arms, w.s.arms);
    lemma_inputs(arms, arms.len());
    lemma_kept(arms, arms.len());
    lemma_owners(arms, arms.len());
    if expansion::has_bodies(arms) {
        let (module, params, variants) = m.module->0;
        let runner = agreement::Runner { function: m.function->0, module, params, variants };
        assert forall|i: int| 0 <= i < arms.len() implies agreement::bodies_fit(
            runner,
            #[trigger] arms[i],
            i as usize,
        ) by {
            if arms[i].spec_shape().spec_has_body() {
                lemma_has_param(arms, arms.len(), i);
                lemma_declared(params, arms, arms.len(), i);
            }
            lemma_bodies_fit(runner, arms, arms.len(), i);
        }
    }
    assert(agreement::set_up(agreement::setup(m), arms)) by {
        reveal(agreement::set_up);
    }
    assert forall|k: int, c: int|
        0 <= k < w.replies.len() && 0 <= c < w.replies[k].cancels.len() implies (
    #[trigger] w.replies[k].cancels[c]) < w.s.arms.len()
        && w.s.arms[w.replies[k].cancels[c] as int].shape.labeled by {
        assert(replies[k].cancels[c] < arms.len());
    }
}

/// The text of an expansion spells a program that does what the state machine does. Whatever the
/// world replies, the program takes the same actions, in the same order, holding the same futures,
/// streams and body at each of them. It waits where the state machine waits, finishes with the
/// values that the state machine finishes with, and returns from the enclosing function where the
/// state machine does. It never panics and never spins.
pub proof fn expansion_does_as_the_state_machine<V>(
    arms: Seq<JoinMeMaybeArm>,
    replies: Seq<Reply<V>>,
)
    requires
        arms.len() <= usize::MAX,
        labels_differ(arms),
        fair(arms, replies),
    ensures
        words::words(expansion::expansion(arms), Words::End) == program::block_text(
            program::program(arms),
        ),
        agrees(program::program(arms), arms, replies),
{
    spelling::expansion_spells_the_program(arms);
    let outline = expansion::outline(arms);
    let m = ready(arms, replies);
    let w = start(arms, replies);
    let beginning = program::beginning(arms, outline);
    let round = program::round(arms, outline);
    lemma_beginning(arms, replies);
    lemma_ready(arms, replies);
    agreement_turns::lemma_top(m, w, arms);
    assert(Mem { consumed: false, ..m } == m);
    let u = w.advance();
    let v = agreement_turns::lemma_loop(m, u, arms, 2);
    world::lemma_reaches_on(w, u, v);
    agreement_rounds::lemma_run_two(
        beginning,
        Stmt::Loop(Box::new(round)),
        meaning::blank(arms, replies),
        m,
    );
    meaning_lemmas::lemma_run_loop(round, m);
    let n = choose|n: nat| #[trigger] w.steps(n) == v;
    assert(w.steps(n) == v);
}

} // verus!
