//! The program that an expansion spells takes the same actions as the state machine of
//! [`crate::driver`], whatever the world replies.

use vstd::prelude::*;

use crate::code::{Cond, Do, Handle, Params, Place, Stmt, Variants};
use crate::driver::{self, Action, ArmState, JoinView, Phase};
use crate::expansion::{Name, Outline, Part};
use crate::expansion;
use crate::laws;
use crate::lemmas;
use crate::meaning::{Answer, Flow, Function, Mem};
use crate::meaning;
use crate::meaning_lemmas;
use crate::program;
use crate::shape::{ArmShape, Bump, Kind};
use crate::syntax::{ArmKind, JoinMeMaybeArm, Region};
use crate::world::World;
use crate::world;

verus! {

/// An arm without the note on its last poll, which no variable of the program holds.
pub open spec fn forget<V>(arm: ArmState<V>) -> ArmState<V> {
    ArmState { registered: false, ..arm }
}

/// Whether the variables of the arms hold what the state machine says.
pub open spec fn same_arms<V>(a: Seq<ArmState<V>>, b: Seq<ArmState<V>>) -> bool {
    &&& a.len() == b.len()
    &&& forall|i: int|
        #![trigger a[i]]
        #![trigger b[i]]
        0 <= i < a.len() ==> a[i] == forget(b[i])
}

/// Whether the label of each arm stands for the canceller of that very arm.
pub open spec fn labels_fit(labels: Map<usize, Handle>, arms: Seq<JoinMeMaybeArm>) -> bool {
    forall|i: int|
        0 <= i < arms.len() && (#[trigger] arms[i]).cancel_label is Some ==> labels.contains_key(
            arms[i].cancel_label->0,
        ) && labels[arms[i].cancel_label->0] == program::handle(arms[i].is_maybe, i as usize)
}

/// What the item of an arm is matched with, the body that then runs, and what runs at the end.
pub open spec fn bodies_of(kind: ArmKind) -> (Option<Region>, Option<Region>, Option<Region>) {
    match kind {
        ArmKind::FutureOnly { .. } => (None, None, None),
        ArmKind::FutureAndBody { pattern, body, .. } => (Some(pattern), Some(body), None),
        ArmKind::StreamAndBody { pattern, body, finally, .. } => (
            Some(pattern),
            Some(body),
            finally,
        ),
    }
}

/// What runs the bodies: the function, and the module of its input with its type parameters and
/// variants.
pub struct Runner {
    pub function: Function,
    pub module: Name,
    pub params: Params,
    pub variants: Variants,
}

/// Whether the function that runs the bodies runs those of arm `i`, and puts their values where
/// they belong.
pub open spec fn bodies_fit(runner: Runner, arm: JoinMeMaybeArm, i: usize) -> bool {
    let shape = arm.spec_shape();
    let (pattern, body, finally) = bodies_of(arm.kind);
    &&& shape.spec_has_body() ==> {
        &&& meaning::declared(runner.params, runner.variants, Name::Variant(i), true)
        &&& meaning::body_arm(runner.function.arms, Name::Variant(i)) matches Some(found)
        &&& found.module == runner.module
        &&& found.pattern is Some && found.pattern == pattern
        &&& Some(found.body) == body
        &&& shape.kind == Kind::FutureBody ==> (found.sink matches Some(sink) && sink.1
            == Name::ArmOutput(i))
        &&& shape.kind != Kind::FutureBody ==> found.sink is None
    }
    &&& shape.spec_has_finally() ==> {
        &&& meaning::declared(runner.params, runner.variants, Name::FinallyVariant(i), false)
        &&& meaning::body_arm(runner.function.arms, Name::FinallyVariant(i)) matches Some(found)
        &&& found.module == runner.module
        &&& found.pattern is None
        &&& Some(found.body) == finally
        &&& (found.sink matches Some(sink) && sink.1 == Name::ArmOutput(i))
    }
}

/// What a program sets up once and for all.
pub struct Setup {
    pub names: Seq<Option<usize>>,
    pub pinned: Map<usize, Region>,
    pub cells: Map<usize, bool>,
    pub labels: Map<usize, Handle>,
    pub module: Option<(Name, Params, Variants)>,
    pub function: Option<Function>,
}

pub open spec fn setup<V>(m: Mem<V>) -> Setup {
    Setup {
        names: m.names,
        pinned: m.pinned,
        cells: m.cells,
        labels: m.labels,
        module: m.module,
        function: m.function,
    }
}

/// Whether what the program has set up for good is as it should be: each arm drives the future or
/// the stream that stands in it, each label stands for the canceller of its arm, both for futures
/// and for bodies, and each body is the one that stands in its arm.
#[verifier::opaque]
pub open spec fn set_up(setup: Setup, arms: Seq<JoinMeMaybeArm>) -> bool {
    &&& setup.names == arms.map_values(|arm: JoinMeMaybeArm| arm.cancel_label)
    &&& forall|i: int|
        0 <= i < arms.len() ==> setup.pinned.contains_key(i as usize) && setup.pinned[i as usize]
            == expansion::scrutinee((#[trigger] arms[i]).kind)
    &&& forall|i: int|
        0 <= i < arms.len() ==> setup.cells.contains_key(i as usize) && setup.cells[i as usize] == (
        (#[trigger] arms[i]).cancel_label is Some)
    &&& labels_fit(setup.labels, arms)
    &&& expansion::has_bodies(arms) ==> {
        &&& setup.function matches Some(function)
        &&& setup.module matches Some((module, params, variants))
        &&& module == Name::PrivateModule
        &&& function.flag == Name::RunBodyNoReturn
        &&& function.value
        &&& labels_fit(function.labels, arms)
        &&& forall|i: int|
            0 <= i < arms.len() && (#[trigger] arms[i]).cancel_label is Some
                ==> function.reached.contains_key(arms[i].cancel_label->0)
                && function.reached[arms[i].cancel_label->0] == Name::Arm(i as usize)
        &&& forall|i: int|
            0 <= i < arms.len() ==> bodies_fit(
                Runner { function, module, params, variants },
                #[trigger] arms[i],
                i as usize,
            )
    }
}

/// Whether the flags say whose body is running.
pub open spec fn flags_fit<V>(m: Mem<V>) -> bool {
    m.body matches Some(body) ==> {
        let shape = m.arms[body.arm as int].shape;
        &&& body.arm < m.arms.len()
        &&& m.body_is_maybe == shape.is_maybe
        &&& m.body_flag == if shape.labeled {
            Some(Name::Cancelled(body.arm))
        } else {
            None
        }
    }
}

/// Whether the variables hold what the state machine says.
pub open spec fn matches_state<V>(m: Mem<V>, s: JoinView<V>, arms: Seq<JoinMeMaybeArm>) -> bool {
    &&& set_up(setup(m), arms)
    &&& same_arms(m.arms, s.arms)
    &&& m.arms.len() == arms.len()
    &&& forall|i: int|
        0 <= i < arms.len() ==> (#[trigger] m.arms[i]).shape == arms[i].spec_shape()
    &&& m.count == s.count
    &&& m.body == s.body
    &&& m.consumed == s.consumed
    &&& flags_fit(m)
    &&& !m.no_return
}

/// Whether the program and the state machine stand at the same point among the same replies.
pub open spec fn meets<V>(m: Mem<V>, w: World<V>, arms: Seq<JoinMeMaybeArm>) -> bool {
    &&& matches_state(m, w.s, arms)
    &&& m.replies == w.replies
    &&& m.log == w.log
    &&& w.s.wf()
    &&& w.fair()
    &&& w.s.total == expansion::outline(arms).total
}

/// Whether the variables that polling an arm leaves alone are the same.
pub open spec fn same_frame<V>(m: Mem<V>, n: Mem<V>) -> bool {
    &&& m.body == n.body
    &&& m.consumed == n.consumed
    &&& m.first == n.first
    &&& m.body_is_maybe == n.body_is_maybe
    &&& m.body_flag == n.body_flag
    &&& m.no_return == n.no_return
    &&& setup(m) == setup(n)
}

/// Whether both have come to the same end: they wait for the world, they have finished with the
/// values of the arms, or a body has returned from the enclosing function.
pub open spec fn ended<V>(m: Mem<V>, w: World<V>) -> bool {
    &&& m.log == w.log
    &&& m.replies == w.replies
    &&& match m.flow {
        Flow::Waiting => m.replies.len() == 0 && m.log.len() > 0,
        Flow::Finished(outputs) => w.s.phase == Phase::Done && outputs == w.s.arms.map_values(
            |arm: ArmState<V>| driver::output_of(arm),
        ),
        Flow::Returned => w.s.phase == Phase::Returned,
        _ => false,
    }
}

/// Whether the future or the stream of arm `i` is kept in a cell exactly if the arm has a label.
pub open spec fn celled<V>(m: Mem<V>, shape: ArmShape, i: usize) -> bool {
    m.cells.contains_key(i) && m.cells[i] == shape.labeled
}

pub proof fn lemma_celled<V>(m: Mem<V>, arms: Seq<JoinMeMaybeArm>, i: usize)
    requires
        set_up(setup(m), arms),
        i < arms.len(),
    ensures
        celled(m, arms[i as int].spec_shape(), i),
{
    reveal(set_up);
    assert(arms[i as int].cancel_label is Some == arms[i as int].spec_shape().labeled);
}

pub proof fn lemma_held<V>(a: Seq<ArmState<V>>, b: Seq<ArmState<V>>)
    requires
        same_arms(a, b),
    ensures
        meaning::held(a) == meaning::held(b),
{
    assert(meaning::held(a) =~= meaning::held(b));
}

pub proof fn lemma_cancel<V>(
    m: Mem<V>,
    s: JoinView<V>,
    labels: Map<usize, Handle>,
    arms: Seq<JoinMeMaybeArm>,
    i: usize,
)
    requires
        m.names == arms.map_values(|arm: JoinMeMaybeArm| arm.cancel_label),
        labels_fit(labels, arms),
        same_arms(m.arms, s.arms),
        m.count == s.count,
        m.arms.len() == arms.len(),
        forall|i: int|
            0 <= i < arms.len() ==> (#[trigger] m.arms[i]).shape == arms[i].spec_shape(),
        i < arms.len(),
        s.arms[i as int].shape.labeled,
    ensures
        ({
            let n = m.cancel(labels, i);
            &&& n == Mem { arms: n.arms, count: n.count, ..m }
            &&& n.arms.len() == arms.len()
            &&& same_arms(n.arms, s.cancel(i as int).arms)
            &&& n.count == s.cancel(i as int).count
            &&& forall|k: int|
                0 <= k < arms.len() ==> (#[trigger] n.arms[k]).shape == arms[k].spec_shape()
        }),
{
    let arm = arms[i as int];
    assert(m.arms[i as int].shape == arm.spec_shape());
    assert(arm.cancel_label is Some);
    assert(m.names[i as int] == arm.cancel_label);
    assert(labels[arm.cancel_label->0] == program::handle(arm.is_maybe, i));
    let n = m.cancel(labels, i);
    assert(n.arms =~= m.arms.update(i as int, m.arms[i as int].after_cancel()));
    assert(n =~= Mem { arms: n.arms, count: n.count, ..m });
}

pub proof fn lemma_cancel_all<V>(
    m: Mem<V>,
    s: JoinView<V>,
    labels: Map<usize, Handle>,
    arms: Seq<JoinMeMaybeArm>,
    cancels: Seq<usize>,
)
    requires
        m.names == arms.map_values(|arm: JoinMeMaybeArm| arm.cancel_label),
        labels_fit(labels, arms),
        same_arms(m.arms, s.arms),
        m.count == s.count,
        m.arms.len() == arms.len(),
        forall|i: int|
            0 <= i < arms.len() ==> (#[trigger] m.arms[i]).shape == arms[i].spec_shape(),
        forall|c: int|
            0 <= c < cancels.len() ==> (#[trigger] cancels[c]) < arms.len()
                && s.arms[cancels[c] as int].shape.labeled,
    ensures
        ({
            let n = m.cancel_all(labels, cancels);
            &&& n == Mem { arms: n.arms, count: n.count, ..m }
            &&& n.arms.len() == arms.len()
            &&& same_arms(n.arms, world::cancel_all(s, cancels).arms)
            &&& n.count == world::cancel_all(s, cancels).count
            &&& forall|k: int|
                0 <= k < arms.len() ==> (#[trigger] n.arms[k]).shape == arms[k].spec_shape()
        }),
    decreases cancels.len(),
{
    if cancels.len() > 0 {
        let before = cancels.drop_last();
        assert forall|c: int| 0 <= c < before.len() implies (#[trigger] before[c]) < arms.len()
            && s.arms[before[c] as int].shape.labeled by {
            assert(cancels[c] == before[c]);
        }
        lemma_cancel_all(m, s, labels, arms, before);
        let n = m.cancel_all(labels, before);
        let i = cancels.last();
        assert(i == cancels[cancels.len() - 1]);
        assert(n.arms[i as int].shape == arms[i as int].spec_shape());
        assert(m.arms[i as int].shape == arms[i as int].spec_shape());
        lemma_cancel(n, world::cancel_all(s, before), labels, arms, i);
    }
}

/// The arms once each of the first `n` that is a "maybe" arm has been dropped.
pub open spec fn maybe_dropped<V>(arms: Seq<ArmState<V>>, n: nat) -> Seq<ArmState<V>> {
    Seq::new(
        arms.len(),
        |i: int|
            if i < n && arms[i].shape.is_maybe {
                arms[i].after_drop()
            } else {
                arms[i]
            },
    )
}

/// The arms once each of the first `n` that was cancelled by its label has been dropped.
pub open spec fn labeled_dropped<V>(arms: Seq<ArmState<V>>, n: nat) -> Seq<ArmState<V>> {
    Seq::new(
        arms.len(),
        |i: int|
            if i < n && arms[i].shape.labeled && arms[i].cancelled {
                arms[i].after_drop()
            } else {
                arms[i]
            },
    )
}

/// Whether the arms have these shapes, and nothing waits for a body that is not there.
pub open spec fn fit<V>(states: Seq<ArmState<V>>, arms: Seq<JoinMeMaybeArm>) -> bool {
    &&& states.len() == arms.len() <= usize::MAX
    &&& forall|i: int|
        0 <= i < arms.len() ==> (#[trigger] states[i]).shape == arms[i].spec_shape() && (
        states[i].shape.kind == Kind::Future ==> states[i].item is None)
}

pub proof fn lemma_drop_arm<V>(m: Mem<V>, shape: ArmShape, i: usize)
    requires
        m.flow is On,
        i < m.arms.len(),
        celled(m, shape, i),
        !shape.spec_has_body() ==> m.arms[i as int].item is None,
    ensures
        meaning::run(program::drop_arm(shape, i), m) == m.set(i, m.arms[i as int].after_drop()),
{
    broadcast use meaning_lemmas::group_meaning;

    assert(meaning::run(program::drop_arm(shape, i), m).arms =~= m.set(
        i,
        m.arms[i as int].after_drop(),
    ).arms);
}

pub proof fn lemma_drop_maybe<V>(m: Mem<V>, arms: Seq<JoinMeMaybeArm>, n: nat, outline: Outline)
    requires
        m.flow is On,
        fit(m.arms, arms),
        forall|i: int|
            0 <= i < arms.len() ==> celled(m, (#[trigger] arms[i]).spec_shape(), i as usize),
        n <= arms.len(),
    ensures
        meaning::run(program::parts(Part::DropMaybe, arms, n, outline), m) == (Mem {
            arms: maybe_dropped(m.arms, n),
            ..m
        }),
    decreases n,
{
    broadcast use meaning_lemmas::group_meaning;

    if n == 0 {
        assert(maybe_dropped(m.arms, 0) =~= m.arms);
    } else {
        let i = (n - 1) as usize;
        lemma_drop_maybe(m, arms, (n - 1) as nat, outline);
        let before = Mem { arms: maybe_dropped(m.arms, (n - 1) as nat), ..m };
        assert(m.arms[i as int].shape == arms[i as int].spec_shape());
        assert(before.arms[i as int] == m.arms[i as int]);
        assert(celled(m, arms[i as int].spec_shape(), i));
        lemma_drop_arm(before, arms[i as int].spec_shape(), i);
        if m.arms[i as int].shape.is_maybe {
            assert(before.set(i, before.arms[i as int].after_drop()).arms =~= maybe_dropped(
                m.arms,
                n,
            ));
        } else {
            assert(before.arms =~= maybe_dropped(m.arms, n));
        }
    }
}

pub proof fn lemma_drop_labeled<V>(m: Mem<V>, arms: Seq<JoinMeMaybeArm>, n: nat, outline: Outline)
    requires
        m.flow is On,
        fit(m.arms, arms),
        forall|i: int|
            0 <= i < arms.len() ==> celled(m, (#[trigger] arms[i]).spec_shape(), i as usize),
        n <= arms.len(),
    ensures
        meaning::run(program::parts(Part::DropLabeled, arms, n, outline), m) == (Mem {
            arms: labeled_dropped(m.arms, n),
            ..m
        }),
    decreases n,
{
    broadcast use meaning_lemmas::group_meaning;

    if n == 0 {
        assert(labeled_dropped(m.arms, 0) =~= m.arms);
    } else {
        let i = (n - 1) as usize;
        lemma_drop_labeled(m, arms, (n - 1) as nat, outline);
        let before = Mem { arms: labeled_dropped(m.arms, (n - 1) as nat), ..m };
        assert(m.arms[i as int].shape == arms[i as int].spec_shape());
        assert(before.arms[i as int] == m.arms[i as int]);
        assert(celled(m, arms[i as int].spec_shape(), i));
        lemma_drop_arm(before, arms[i as int].spec_shape(), i);
        if m.arms[i as int].shape.labeled && m.arms[i as int].cancelled {
            assert(before.set(i, before.arms[i as int].after_drop()).arms =~= labeled_dropped(
                m.arms,
                n,
            ));
        } else {
            assert(before.arms =~= labeled_dropped(m.arms, n));
        }
    }
}

/// The join once everything that is cancelled has been dropped.
pub open spec fn all_dropped<V>(s: JoinView<V>) -> JoinView<V> {
    JoinView {
        arms: Seq::new(
            s.arms.len(),
            |i: int|
                if s.gone(i) {
                    s.arms[i].after_drop()
                } else {
                    s.arms[i]
                },
        ),
        ..s
    }
}

/// The program drops exactly what is cancelled: by its label, or because it is a "maybe" arm and
/// nothing is left to wait for.
pub proof fn lemma_drop_cancelled<V>(m: Mem<V>, w: World<V>, arms: Seq<JoinMeMaybeArm>)
    requires
        m.flow is On,
        meets(m, w, arms),
    ensures
        ({
            let n = meaning::run(program::drop_cancelled(arms, expansion::outline(arms)), m);
            &&& n == Mem { arms: n.arms, ..m }
            &&& same_arms(n.arms, all_dropped(w.s).arms)
        }),
{
    broadcast use meaning_lemmas::group_meaning;

    let outline = expansion::outline(arms);
    let len = arms.len();
    let s = w.s;
    assert forall|i: int| 0 <= i < arms.len() implies (#[trigger] m.arms[i]).shape
        == arms[i].spec_shape() && (m.arms[i].shape.kind == Kind::Future ==> m.arms[i].item
        is None) by {
        assert(s.arms[i].wf());
    }
    assert forall|i: int| 0 <= i < arms.len() implies celled(
        m,
        (#[trigger] arms[i]).spec_shape(),
        i as usize,
    ) by {
        lemma_celled(m, arms, i as usize);
    }
    let first = if m.count == outline.total {
        Mem { arms: maybe_dropped(m.arms, len), ..m }
    } else {
        m
    };
    lemma_drop_maybe(m, arms, len, outline);
    assert(fit(first.arms, arms));
    assert forall|i: int| 0 <= i < arms.len() implies celled(
        first,
        (#[trigger] arms[i]).spec_shape(),
        i as usize,
    ) by {
        assert(celled(m, arms[i].spec_shape(), i as usize));
    }
    lemma_drop_labeled(first, arms, len, outline);
    let n = Mem { arms: labeled_dropped(first.arms, len), ..first };
    assert(n == Mem { arms: n.arms, ..m });
    assert forall|i: int| 0 <= i < arms.len() implies #[trigger] n.arms[i] == forget(
        all_dropped(s).arms[i],
    ) by {
        assert(m.arms[i] == forget(s.arms[i]));
    }
}

pub proof fn lemma_world_drops<V>(w: World<V>, k: nat)
    requires
        w.s.wf(),
        w.fair(),
        w.s.phase == Phase::Drop || w.s.phase == Phase::Sweep,
        k <= w.s.arms.len(),
        forall|i: int| 0 <= i < k ==> !#[trigger] w.s.must_drop(i),
    ensures
        w.reaches(World { s: all_dropped(w.s), ..w }),
        all_dropped(w.s).wf(),
        (World { s: all_dropped(w.s), ..w }).fair(),
        forall|i: int| 0 <= i < w.s.arms.len() ==> !#[trigger] all_dropped(w.s).must_drop(i),
    decreases w.s.arms.len() - k,
{
    let s = w.s;
    let end = World { s: all_dropped(s), ..w };
    if k == s.arms.len() {
        assert forall|i: int| 0 <= i < s.arms.len() implies #[trigger] all_dropped(s).arms[i]
            == s.arms[i] by {
            assert(!s.must_drop(i));
        }
        assert(all_dropped(s).arms =~= s.arms);
        world::lemma_reaches_itself(w);
        assert forall|i: int| 0 <= i < s.arms.len() implies !#[trigger] all_dropped(s).must_drop(
            i,
        ) by {
            assert(!s.must_drop(i));
        }
    } else if !s.must_drop(k as int) {
        lemma_world_drops(w, k + 1);
    } else {
        lemmas::lemma_first_to_drop(s);
        assert(s.first_to_drop() == k) by {
            let j = s.first_to_drop();
            if j < k {
                assert(!s.must_drop(j));
            }
            assert(s.must_drop(k as int));
        }
        let v = w.advance();
        world::lemma_reaches_next(w);
        world::lemma_advance_keeps_wf(w);
        assert(v == World { s: s.set(k as int, s.arms[k as int].after_drop()), ..w });
        assert forall|i: int| 0 <= i < k + 1 implies !#[trigger] v.s.must_drop(i) by {
            if i < k {
                assert(!s.must_drop(i));
            }
        }
        lemma_world_drops(v, k + 1);
        assert(all_dropped(v.s).arms =~= all_dropped(s).arms) by {
            assert forall|i: int| 0 <= i < s.arms.len() implies #[trigger] all_dropped(v.s).arms[i]
                == all_dropped(s).arms[i] by {
                assert(v.s.gone(i) == s.gone(i));
            }
        }
        world::lemma_reaches_on(w, v, end);
    }
}

/// What the answer of an arm does to the variables, and whether it says that the arm has finished.
#[verifier::opaque]
pub open spec fn answered<V>(m: Mem<V>, kind: Kind, i: usize, answer: Answer<V>) -> (Mem<V>, bool) {
    let arm = m.arms[i as int];
    match (kind, answer) {
        (Kind::Future, Answer::Value(value)) => (
            Mem { output: Some(value), ..m }.set(i, ArmState { output: Some(value), ..arm }),
            true,
        ),
        (Kind::FutureBody, Answer::Value(value)) => (
            Mem { output: Some(value), ..m }.set(i, ArmState { item: Some(value), ..arm }),
            true,
        ),
        (Kind::Future, _) | (Kind::FutureBody, _) => (m, false),
        (_, Answer::Value(value)) => (
            Mem { item: Some(value), ..m }.set(i, ArmState { item: Some(value), ..arm }),
            false,
        ),
        (Kind::StreamFinally, Answer::End) => (
            m.set(i, ArmState { should_run_finally: true, ..arm }),
            true,
        ),
        (_, Answer::End) => (m, true),
        (_, Answer::Pending) => (m, false),
    }
}

pub proof fn lemma_judge<V>(m: Mem<V>, shape: ArmShape, i: usize)
    requires
        m.flow is On,
        m.replies.len() > 0,
        m.bound == Some((expansion::polled(shape), i)),
        m.arms[i as int].item is None,
        m.act(Action::PollArm(i)).cancel_all(m.labels, m.replies[0].cancels).flow is On,
    ensures
        meaning::judge(program::poll_is_ready(shape, i), m) == answered(
            m.act(Action::PollArm(i)).cancel_all(m.labels, m.replies[0].cancels),
            shape.kind,
            i,
            m.replies[0].answer,
        ),
{
    broadcast use meaning_lemmas::group_meaning;

    reveal(answered);
}

pub proof fn lemma_answered_frame<V>(m: Mem<V>, kind: Kind, i: usize, answer: Answer<V>)
    requires
        i < m.arms.len(),
    ensures
        ({
            let (after, ready) = answered(m, kind, i, answer);
            &&& after.flow == m.flow
            &&& after.guard == m.guard
            &&& after.cells == m.cells
            &&& after.arms.len() == m.arms.len()
        }),
{
    reveal(answered);
}

pub proof fn lemma_judge_waits<V>(m: Mem<V>, shape: ArmShape, i: usize)
    requires
        m.replies.len() == 0,
        m.bound == Some((expansion::polled(shape), i)),
        m.arms[i as int].item is None,
    ensures
        meaning::judge(program::poll_is_ready(shape, i), m) == (m.act(Action::PollArm(i)), false),
{
    broadcast use meaning_lemmas::group_meaning;

}

/// The variables once arm `i` has been counted and dropped.
#[verifier::opaque]
pub open spec fn counted<V>(m: Mem<V>, bump: Bump, i: usize) -> Mem<V> {
    let arm = m.arms[i as int];
    let gone = ArmState { live: false, ..arm };
    match bump {
        Bump::Never => m.set(i, gone),
        Bump::Always => Mem { count: (m.count + 1) as usize, ..m.set(i, gone) },
        Bump::Once => {
            let marked = Mem {
                already_finished: arm.finished,
                ..m.set(i, ArmState { finished: true, ..gone })
            };
            if arm.finished {
                marked
            } else {
                Mem { count: (m.count + 1) as usize, ..marked }
            }
        },
    }
}

pub proof fn lemma_bump<V>(m: Mem<V>, clear: Do, bump: Bump, i: usize)
    requires
        m.flow is On,
        i < m.arms.len(),
        clear == Do::Clear(Name::Arm(i)) && m.keeps(Name::Arm(i), false) || (clear
            == Do::ClearGuard && m.guard == Some(Name::Arm(i)) && m.keeps(Name::Arm(i), true)),
    ensures
        meaning::run(program::seq(program::step(clear), program::bump_count(bump, i)), m)
            == counted(m, bump, i),
{
    broadcast use meaning_lemmas::group_meaning;

    reveal(counted);
    let n = meaning::run(program::seq(program::step(clear), program::bump_count(bump, i)), m);
    assert(n.arms =~= counted(m, bump, i).arms);
    assert(n =~= counted(m, bump, i));
}

pub proof fn lemma_counted_frame<V>(m: Mem<V>, bump: Bump, i: usize)
    ensures
        counted(m, bump, i).flow == m.flow,
{
    reveal(counted);
}

/// The variables while arm `i` is being polled.
pub open spec fn while_polled<V>(m: Mem<V>, shape: ArmShape, i: usize) -> Mem<V> {
    Mem {
        bound: Some((expansion::polled(shape), i)),
        guard: if shape.labeled {
            Some(Name::Arm(i))
        } else {
            m.guard
        },
        ..m
    }
}

/// The variables once arm `i` has been polled, where `c` is what they were when the world had
/// replied.
pub open spec fn once_polled<V>(
    c: Mem<V>,
    shape: ArmShape,
    i: usize,
    answer: Answer<V>,
    total: usize,
) -> Mem<V> {
    let (after, ready) = answered(c, shape.kind, i, answer);
    let r = Mem { is_ready: ready, ..after };
    let k = if ready {
        counted(r, shape.spec_bump(), i)
    } else {
        r
    };
    if k.count == total {
        Mem { flow: Flow::Break, ..k }
    } else {
        k
    }
}

/// The variables once an arm has answered are what the state machine says.
pub proof fn lemma_answer<V>(m: Mem<V>, s: JoinView<V>, i: usize, answer: Answer<V>)
    requires
        same_arms(m.arms, s.arms),
        m.count == s.count,
        s.phase == Phase::Polling(i),
        i < s.arms.len(),
        s.arms[i as int].wf(),
        s.arms[i as int].live,
    ensures
        ({
            let shape = s.arms[i as int].shape;
            let n = once_polled(m, shape, i, answer, s.total);
            let t = if shape.spec_is_stream() {
                s.stream_polled(world::as_stream(answer))
            } else {
                s.future_polled(world::as_future(answer))
            };
            &&& same_arms(n.arms, t.arms)
            &&& n.count == t.count
            &&& same_frame(m, n)
            &&& n.next == m.next
            &&& n.replies == m.replies
            &&& n.log == m.log
            &&& n.flow == if t.definitely_finished() {
                Flow::Break
            } else {
                m.flow
            }
            &&& t.body == s.body
            &&& t.total == s.total
            &&& t.consumed == s.consumed
        }),
{
    reveal(answered);
    reveal(counted);
    assert(m.arms[i as int] == forget(s.arms[i as int]));
}

/// Polling arm `i`, which says whether it has finished.
#[verifier::opaque]
pub open spec fn ready_stmt(shape: ArmShape, i: usize) -> Stmt {
    Stmt::LetReady(
        if shape.labeled {
            Place::Guard
        } else {
            Place::Var(Name::Arm(i))
        },
        expansion::polled(shape),
        program::poll_is_ready(shape, i),
        false,
    )
}

/// Dropping and counting arm `i`, if it has finished.
#[verifier::opaque]
pub open spec fn count_stmt(shape: ArmShape, i: usize) -> Stmt {
    program::when(
        Cond::IsReady,
        program::seq(
            program::step(
                if shape.labeled {
                    Do::ClearGuard
                } else {
                    Do::Clear(Name::Arm(i))
                },
            ),
            program::bump_count(shape.spec_bump(), i),
        ),
    )
}

pub proof fn lemma_ready_stmt<V>(m: Mem<V>, shape: ArmShape, i: usize)
    requires
        m.flow is On,
        i < m.arms.len(),
        celled(m, shape, i),
        m.arms[i as int].live,
        m.arms[i as int].item is None,
        m.replies.len() > 0,
        while_polled(m, shape, i).act(Action::PollArm(i)).cancel_all(
            m.labels,
            m.replies[0].cancels,
        ).flow is On,
    ensures
        ({
            let b = while_polled(m, shape, i);
            let c = b.act(Action::PollArm(i)).cancel_all(m.labels, m.replies[0].cancels);
            let (after, ready) = answered(c, shape.kind, i, m.replies[0].answer);
            meaning::run(ready_stmt(shape, i), Mem { guard: b.guard, ..m }) == Mem {
                is_ready: ready,
                ..after
            }
        }),
{
    reveal(ready_stmt);
    let b = while_polled(m, shape, i);
    let locked = Mem { guard: b.guard, ..m };
    lemma_judge(b, shape, i);
    let polled = expansion::polled(shape);
    let place = if shape.labeled {
        Place::Guard
    } else {
        Place::Var(Name::Arm(i))
    };
    assert(Mem { bound: Some((polled, i)), ..locked } == b);
    meaning_lemmas::lemma_run_let_ready(
        place,
        polled,
        program::poll_is_ready(shape, i),
        false,
        locked,
    );
}

pub proof fn lemma_count_stmt<V>(m: Mem<V>, shape: ArmShape, i: usize)
    requires
        m.flow is On,
        i < m.arms.len(),
        celled(m, shape, i),
        shape.labeled ==> m.guard == Some(Name::Arm(i)),
    ensures
        meaning::run(count_stmt(shape, i), m) == if m.is_ready {
            counted(m, shape.spec_bump(), i)
        } else {
            m
        },
{
    reveal(count_stmt);
    let clear = if shape.labeled {
        Do::ClearGuard
    } else {
        Do::Clear(Name::Arm(i))
    };
    let s = program::seq(program::step(clear), program::bump_count(shape.spec_bump(), i));
    lemma_bump(m, clear, shape.spec_bump(), i);
    meaning_lemmas::lemma_run_if(Cond::IsReady, s, m);
    meaning_lemmas::lemma_holds_is_ready(m);
}

pub proof fn lemma_check<V>(m: Mem<V>, total: usize)
    requires
        m.flow is On,
    ensures
        meaning::run(program::check_definitely_finished(total), m) == if m.count == total {
            Mem { flow: Flow::Break, ..m }
        } else {
            m
        },
{
    broadcast use meaning_lemmas::group_meaning;

}

/// Polling arm `i`, then counting it.
pub open spec fn poll_stmt(shape: ArmShape, i: usize) -> Stmt {
    if shape.labeled {
        program::seq(
            program::seq(program::step(Do::Lock(Name::Arm(i))), ready_stmt(shape, i)),
            count_stmt(shape, i),
        )
    } else {
        program::seq(ready_stmt(shape, i), count_stmt(shape, i))
    }
}

pub proof fn lemma_poll_stmt(shape: ArmShape, i: usize, total: usize)
    ensures
        ({
            let s = program::seq(poll_stmt(shape, i), program::check_definitely_finished(total));
            program::poll_and_count(shape, i, total) == if shape.labeled {
                program::when(program::not(Cond::Flag(Name::Cancelled(i))), s)
            } else {
                s
            }
        }),
{
    reveal(ready_stmt);
    reveal(count_stmt);
}

pub proof fn lemma_poll_stmt_runs<V>(m: Mem<V>, shape: ArmShape, i: usize, r: Mem<V>)
    requires
        m.flow is On,
        i < m.arms.len(),
        celled(m, shape, i),
        celled(r, shape, i),
        meaning::run(
            ready_stmt(shape, i),
            Mem { guard: while_polled(m, shape, i).guard, ..m },
        ) == r,
        r.flow is On,
        r.arms.len() == m.arms.len(),
        r.guard == while_polled(m, shape, i).guard,
    ensures
        meaning::run(poll_stmt(shape, i), m) == if r.is_ready {
            counted(r, shape.spec_bump(), i)
        } else {
            r
        },
{
    let locked = Mem { guard: while_polled(m, shape, i).guard, ..m };
    let ready_stmt = ready_stmt(shape, i);
    let count_stmt = count_stmt(shape, i);
    lemma_count_stmt(r, shape, i);
    if shape.labeled {
        let lock = program::step(Do::Lock(Name::Arm(i)));
        meaning_lemmas::lemma_run_simple(Do::Lock(Name::Arm(i)), m);
        meaning_lemmas::lemma_carry_out_lock(Name::Arm(i), m);
        meaning_lemmas::lemma_run_then(lock, ready_stmt, m);
        meaning_lemmas::lemma_run_then(program::seq(lock, ready_stmt), count_stmt, m);
    } else {
        assert(locked == m);
        meaning_lemmas::lemma_run_then(ready_stmt, count_stmt, m);
    }
}

pub proof fn lemma_poll_runs<V>(m: Mem<V>, shape: ArmShape, i: usize, total: usize)
    requires
        m.flow is On,
        i < m.arms.len(),
        celled(m, shape, i),
        m.arms[i as int].live,
        m.arms[i as int].item is None,
        !(shape.labeled && m.arms[i as int].cancelled),
        m.replies.len() > 0,
        ({
            let c = while_polled(m, shape, i).act(Action::PollArm(i)).cancel_all(
                m.labels,
                m.replies[0].cancels,
            );
            &&& c.flow is On
            &&& c.arms.len() == m.arms.len()
            &&& c.guard == while_polled(m, shape, i).guard
            &&& c.cells == m.cells
        }),
    ensures
        meaning::run(program::poll_and_count(shape, i, total), m) == once_polled(
            while_polled(m, shape, i).act(Action::PollArm(i)).cancel_all(
                m.labels,
                m.replies[0].cancels,
            ),
            shape,
            i,
            m.replies[0].answer,
            total,
        ),
{
    let b = while_polled(m, shape, i);
    let c = b.act(Action::PollArm(i)).cancel_all(m.labels, m.replies[0].cancels);
    let (after, ready) = answered(c, shape.kind, i, m.replies[0].answer);
    let r = Mem { is_ready: ready, ..after };
    let k = if ready {
        counted(r, shape.spec_bump(), i)
    } else {
        r
    };
    let check = program::check_definitely_finished(total);
    lemma_answered_frame(c, shape.kind, i, m.replies[0].answer);
    lemma_counted_frame(r, shape.spec_bump(), i);
    lemma_ready_stmt(m, shape, i);
    lemma_poll_stmt_runs(m, shape, i, r);
    lemma_poll_stmt(shape, i, total);
    lemma_check(k, total);
    meaning_lemmas::lemma_run_then(poll_stmt(shape, i), check, m);
    if shape.labeled {
        meaning_lemmas::lemma_run_if(
            program::not(Cond::Flag(Name::Cancelled(i))),
            program::seq(poll_stmt(shape, i), check),
            m,
        );
        meaning_lemmas::lemma_holds_not(Cond::Flag(Name::Cancelled(i)), m);
        meaning_lemmas::lemma_holds_flag(Name::Cancelled(i), m);
    }
}

pub proof fn lemma_poll_waits<V>(m: Mem<V>, shape: ArmShape, i: usize, total: usize)
    requires
        m.flow is On,
        i < m.arms.len(),
        celled(m, shape, i),
        m.arms[i as int].live,
        m.arms[i as int].item is None,
        !(shape.labeled && m.arms[i as int].cancelled),
        m.replies.len() == 0,
    ensures
        meaning::run(program::poll_and_count(shape, i, total), m) == (Mem {
            is_ready: false,
            ..while_polled(m, shape, i).act(Action::PollArm(i))
        }),
{
    broadcast use meaning_lemmas::group_meaning;

    lemma_judge_waits(while_polled(m, shape, i), shape, i);
}

/// What the cancellations of a reply do to the variables is what they do to the state machine.
pub proof fn lemma_reply<V>(
    a: Mem<V>,
    t: JoinView<V>,
    w: World<V>,
    labels: Map<usize, Handle>,
    arms: Seq<JoinMeMaybeArm>,
)
    requires
        set_up(setup(a), arms),
        labels == a.labels || (expansion::has_bodies(arms) && labels == a.function->0.labels),
        same_arms(a.arms, t.arms),
        a.arms.len() == arms.len(),
        a.count == t.count,
        forall|i: int|
            0 <= i < arms.len() ==> (#[trigger] a.arms[i]).shape == arms[i].spec_shape(),
        t.wf(),
        w.replies.len() > 0,
        w.fair(),
        w.s.arms.len() == arms.len(),
        forall|i: int|
            0 <= i < arms.len() ==> (#[trigger] w.s.arms[i]).shape == arms[i].spec_shape(),
    ensures
        ({
            let cancels = w.replies[0].cancels;
            let c = a.cancel_all(labels, cancels);
            let u = world::cancel_all(t, cancels);
            &&& c == Mem { arms: c.arms, count: c.count, ..a }
            &&& c.arms.len() == arms.len()
            &&& same_arms(c.arms, u.arms)
            &&& c.count == u.count
            &&& forall|i: int|
                0 <= i < arms.len() ==> (#[trigger] c.arms[i]).shape == arms[i].spec_shape()
            &&& u.wf()
            &&& u == JoinView { arms: u.arms, count: u.count, ..t }
            &&& u.arms.len() == arms.len()
            &&& forall|i: int|
                0 <= i < arms.len() ==> (#[trigger] u.arms[i]).shape == t.arms[i].shape
                    && u.arms[i].live == t.arms[i].live && u.arms[i].item == t.arms[i].item
                    && u.arms[i].should_run_finally == t.arms[i].should_run_finally
                    && u.arms[i].output == t.arms[i].output
        }),
{
    let cancels = w.replies[0].cancels;
    assert forall|k: int| 0 <= k < cancels.len() implies (#[trigger] cancels[k]) < arms.len()
        && t.arms[cancels[k] as int].shape.labeled by {
        assert(w.replies[0].cancels[k] < w.s.arms.len());
        assert(a.arms[cancels[k] as int] == forget(t.arms[cancels[k] as int]));
    }
    reveal(set_up);
    lemma_cancel_all(a, t, labels, arms, cancels);
    world::lemma_cancel_all(t, cancels);
}

/// The program and the state machine meet again after a step that leaves most variables alone.
pub proof fn lemma_meet_again<V>(
    m: Mem<V>,
    w: World<V>,
    n: Mem<V>,
    arms: Seq<JoinMeMaybeArm>,
)
    requires
        meets(m, w, arms),
        same_frame(m, n),
        same_arms(n.arms, w.advance().s.arms),
        n.count == w.advance().s.count,
        w.advance().s.body == w.s.body,
        w.advance().s.consumed == w.s.consumed,
        n.replies == w.advance().replies,
        n.log == w.advance().log,
    ensures
        meets(n, w.advance(), arms),
{
    let v = w.advance();
    world::lemma_advance_keeps_wf(w);
    assert forall|j: int| 0 <= j < arms.len() implies (#[trigger] n.arms[j]).shape
        == arms[j].spec_shape() by {
        assert(n.arms[j] == forget(v.s.arms[j]));
        assert(v.s.arms[j].shape == w.s.arms[j].shape);
        assert(m.arms[j] == forget(w.s.arms[j]));
    }
}

/// Polling an arm takes the same step as the state machine, and leaves the polls when nothing is
/// left to wait for.
pub proof fn lemma_poll_acts<V>(
    m: Mem<V>,
    w: World<V>,
    arms: Seq<JoinMeMaybeArm>,
    p: usize,
    i: usize,
)
    requires
        m.flow is On,
        meets(m, w, arms),
        w.s.phase == Phase::Poll(p),
        p <= i < arms.len(),
        w.s.first_pollable(p as int) == i,
        !w.s.definitely_finished(),
    ensures
        ({
            let total = expansion::outline(arms).total;
            let n = meaning::run(program::poll_and_count(arms[i as int].spec_shape(), i, total), m);
            let v = w.advance();
            &&& same_frame(m, n)
            &&& n.next == m.next
            &&& w.replies.len() == 0 ==> ended(n, v)
            &&& w.replies.len() > 0 ==> {
                &&& meets(n, v, arms)
                &&& n.replies.len() < m.replies.len()
                &&& v.s.definitely_finished() ==> n.flow is Break
                &&& !v.s.definitely_finished() ==> n.flow is On
                &&& !v.s.definitely_finished() && v.s.body is None
                    && v.s.arms[i as int].spec_startable() ==> v.s.phase == Phase::Drop
                    && v.s.next == i + 1
                &&& v.s.definitely_finished() || v.s.body is Some
                    || !v.s.arms[i as int].spec_startable() ==> v.s.phase == Phase::Poll(
                    (i + 1) as usize,
                )
            }
        }),
{
    let total = expansion::outline(arms).total;
    let shape = arms[i as int].spec_shape();
    let s = w.s;
    let v = w.advance();
    lemmas::lemma_first_pollable(s, p as int);
    assert(m.arms[i as int] == forget(s.arms[i as int]));
    assert(s.arms[i as int].shape == shape);
    let s1 = JoinView { phase: Phase::Polling(i), ..s };
    assert(s.step() == (s1, Some(Action::<V>::PollArm(i))));
    let b = while_polled(m, shape, i);
    lemma_celled(m, arms, i);
    let a = b.act(Action::PollArm(i));
    lemma_held(m.arms, s.arms);
    let n = meaning::run(program::poll_and_count(shape, i, total), m);
    if w.replies.len() == 0 {
        lemma_poll_waits(m, shape, i, total);
    } else {
        let reply = w.replies[0];
        let c = a.cancel_all(m.labels, reply.cancels);
        let sc = world::cancel_all(s1, reply.cancels);
        laws::step_keeps_wf(s);
        assert forall|k: int| 0 <= k < arms.len() implies (#[trigger] s.arms[k]).shape
            == arms[k].spec_shape() by {
            assert(m.arms[k] == forget(s.arms[k]));
        }
        lemma_reply(a, s1, w, m.labels, arms);
        assert(sc.arms[i as int].shape == shape);
        assert(sc.arms[i as int].live);
        assert(sc.arms[i as int].wf());
        lemma_poll_runs(m, shape, i, total);
        lemma_answer(c, sc, i, reply.answer);
        assert(v.s == if shape.spec_is_stream() {
            sc.stream_polled(world::as_stream(reply.answer))
        } else {
            sc.future_polled(world::as_future(reply.answer))
        });
        lemma_meet_again(m, w, n, arms);
    }
}

pub proof fn lemma_poll_skips<V>(m: Mem<V>, shape: ArmShape, i: usize, total: usize)
    requires
        m.flow is On,
        i < m.arms.len(),
        celled(m, shape, i),
        m.arms[i as int].shape == shape,
        !m.arms[i as int].spec_pollable(),
        m.arms[i as int].item is Some ==> shape.spec_is_stream() || !m.arms[i as int].live,
        m.count != total,
    ensures
        ({
            let n = meaning::run(program::poll_and_count(shape, i, total), m);
            n == Mem { is_ready: n.is_ready, guard: n.guard, bound: n.bound, ..m }
        }),
{
    broadcast use meaning_lemmas::group_meaning;

}

pub proof fn lemma_leave<V>(m: Mem<V>, shape: ArmShape, i: usize)
    requires
        m.flow is On,
        i < m.arms.len(),
    ensures
        meaning::run(program::leave_for_body(shape, i), m) == if shape.spec_has_body()
            && m.body is None && (m.arms[i as int].item is Some || (shape.spec_has_finally()
            && m.arms[i as int].should_run_finally)) {
            Mem { next: (i + 1) as usize, flow: Flow::Break, ..m }
        } else {
            m
        },
{
    broadcast use meaning_lemmas::group_meaning;

}

/// Whether the state machine is about to poll an arm from `k` on, or none.
pub open spec fn at_poll<V>(w: World<V>, k: int) -> bool {
    &&& !w.s.definitely_finished()
    &&& w.s.phase matches Phase::Poll(p)
    &&& p <= k
    &&& forall|j: int| p <= j < k ==> !(#[trigger] w.s.arms[j]).spec_pollable()
}

/// Where polling goes on before it comes to arm `i`.
pub open spec fn up_to<V>(m: Mem<V>, bodies: bool, i: int) -> int {
    if bodies && m.first > i {
        m.first as int
    } else {
        i
    }
}

/// Whether polling has been left, and the state machine is about to drop what is cancelled.
pub open spec fn left<V>(m: Mem<V>, w: World<V>, arms: Seq<JoinMeMaybeArm>) -> bool {
    &&& meets(m, w, arms)
    &&& w.s.phase == Phase::Drop
    &&& w.s.next <= arms.len()
    &&& w.s.next == if expansion::has_bodies(arms) {
        m.next as int
    } else {
        arms.len() as int
    }
}

pub proof fn lemma_first_is<V>(s: JoinView<V>, p: int, i: int)
    requires
        0 <= p <= i < s.arms.len(),
        forall|j: int| p <= j < i ==> !(#[trigger] s.arms[j]).spec_pollable(),
        s.arms[i].spec_pollable(),
    ensures
        s.first_pollable(p) == i,
{
    lemmas::lemma_first_pollable(s, p);
    let j = s.first_pollable(p);
    if j < i {
        assert(!s.arms[j].spec_pollable());
    }
}

pub proof fn lemma_leave_polls<V>(m: Mem<V>, w: World<V>, n: Mem<V>, arms: Seq<JoinMeMaybeArm>)
    requires
        meets(m, w, arms),
        w.s.phase is Poll,
        w.s.definitely_finished() || (w.s.phase matches Phase::Poll(p) && w.s.first_pollable(
            p as int,
        ) >= w.s.arms.len()),
        expansion::has_bodies(arms) ==> m.next == arms.len(),
        n == (Mem { flow: n.flow, ..m }),
    ensures
        left(n, w.advance(), arms),
        w.reaches(w.advance()),
{
    world::lemma_reaches_next(w);
    world::lemma_advance_keeps_wf(w);
}

/// One arm of the polls: the arm is polled if the state machine polls it, and polling is left when
/// the state machine leaves it.
pub proof fn lemma_poll<V>(
    m: Mem<V>,
    w: World<V>,
    arms: Seq<JoinMeMaybeArm>,
    i: usize,
) -> (v: World<V>)
    requires
        m.flow is On,
        meets(m, w, arms),
        i < arms.len(),
        expansion::has_bodies(arms) ==> m.next == arms.len(),
        at_poll(w, up_to(m, expansion::has_bodies(arms), i as int)),
    ensures
        ({
            let outline = expansion::outline(arms);
            let n = meaning::run(program::poll(arms[i as int].spec_shape(), i, outline), m);
            &&& w.reaches(v)
            &&& same_frame(m, n)
            &&& n.replies.len() <= m.replies.len()
            &&& n.replies.len() < m.replies.len() || n.next == m.next
            &&& {
                ||| ended(n, v)
                ||| n.flow is On && meets(n, v, arms) && n.next == m.next && at_poll(
                    v,
                    up_to(m, outline.bodies, i + 1),
                )
                ||| n.flow is Break && left(n, v, arms)
            }
        }),
{
    let outline = expansion::outline(arms);
    let shape = arms[i as int].spec_shape();
    let total = outline.total;
    let s = w.s;
    let p = s.phase->Poll_0;
    let count = program::poll_and_count(shape, i, total);
    let leave = program::leave_for_body(shape, i);
    let k = meaning::run(count, m);
    let n = meaning::run(program::poll(shape, i, outline), m);
    assert(m.arms[i as int] == forget(s.arms[i as int]));
    assert(s.arms[i as int].wf());
    world::lemma_reaches_itself(w);
    lemma_celled(m, arms, i);
    if outline.bodies {
        meaning_lemmas::lemma_run_if(
            Cond::AtMost(Name::FirstArm, i),
            program::seq(count, leave),
            m,
        );
        meaning_lemmas::lemma_holds_at_most(Name::FirstArm, i, m);
        meaning_lemmas::lemma_run_then(count, leave, m);
    }
    if outline.bodies && m.first > i {
        w
    } else if !s.arms[i as int].spec_pollable() {
        lemma_poll_skips(m, shape, i, total);
        lemma_leave(k, shape, i);
        if s.body is None {
            assert(!s.arms[i as int].spec_startable());
        }
        w
    } else {
        let v = w.advance();
        lemma_first_is(s, p as int, i as int);
        lemma_poll_acts(m, w, arms, p, i);
        world::lemma_reaches_next(w);
        if w.replies.len() == 0 {
            v
        } else if v.s.definitely_finished() {
            assert(n == k);
            let before = Mem { flow: Flow::On, ..k };
            lemma_leave_polls(before, v, k, arms);
            world::lemma_reaches_on(w, v, v.advance());
            v.advance()
        } else {
            lemma_leave(k, shape, i);
            assert(k.arms[i as int] == forget(v.s.arms[i as int]));
            assert(v.s.arms[i as int].wf());
            assert(v.s.arms[i as int].shape == shape);
            if !outline.bodies {
                assert(!shape.spec_has_body());
            }
            v
        }
    }
}

} // verus!
