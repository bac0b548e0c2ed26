//! Facts about the state of a join that the proofs share.

use vstd::prelude::*;

use crate::driver::{self, ArmState, JoinView};

verus! {

/// Replacing an arm moves the count of arms that are over by what changes at that arm.
pub proof fn lemma_over_count_update<V>(arms: Seq<ArmState<V>>, i: int, arm: ArmState<V>)
    requires
        0 <= i < arms.len(),
        arm.shape == arms[i].shape,
    ensures
        driver::definite_count(arms.update(i, arm)) == driver::definite_count(arms),
        driver::over_count(arms.update(i, arm)) == driver::over_count(arms) - (if !arm.shape.is_maybe
            && arms[i].over() {
            1int
        } else {
            0int
        }) + (if !arm.shape.is_maybe && arm.over() {
            1int
        } else {
            0int
        }),
    decreases arms.len(),
{
    let next = arms.update(i, arm);
    if i == arms.len() - 1 {
        assert(next.drop_last() =~= arms.drop_last());
    } else {
        assert(next.drop_last() =~= arms.drop_last().update(i, arm));
        lemma_over_count_update(arms.drop_last(), i, arm);
    }
}

/// Sequences of arms that agree on what counts have the same counts.
pub proof fn lemma_counts_agree<V>(a: Seq<ArmState<V>>, b: Seq<ArmState<V>>)
    requires
        a.len() == b.len(),
        forall|i: int| 0 <= i < a.len() ==> (#[trigger] a[i]).shape == b[i].shape,
        forall|i: int| 0 <= i < a.len() ==> (#[trigger] a[i]).over() == b[i].over(),
    ensures
        driver::definite_count(a) == driver::definite_count(b),
        driver::over_count(a) == driver::over_count(b),
    decreases a.len(),
{
    if a.len() > 0 {
        assert forall|i: int| 0 <= i < a.drop_last().len() implies (
        #[trigger] a.drop_last()[i]).shape == b.drop_last()[i].shape && a.drop_last()[i].over()
            == b.drop_last()[i].over() by {
            assert(a.drop_last()[i] == a[i]);
        }
        lemma_counts_agree(a.drop_last(), b.drop_last());
        assert(a.last() == a[a.len() - 1]);
    }
}

/// No more arms are over than are waited for, and no more are waited for than there are. If all
/// that are waited for are counted as over, then each of them is over.
pub proof fn lemma_counts_bounded<V>(arms: Seq<ArmState<V>>)
    ensures
        driver::over_count(arms) <= driver::definite_count(arms) <= arms.len(),
        driver::over_count(arms) == driver::definite_count(arms) ==> forall|i: int|
            0 <= i < arms.len() && !(#[trigger] arms[i]).shape.is_maybe ==> arms[i].over(),
    decreases arms.len(),
{
    if arms.len() > 0 {
        lemma_counts_bounded(arms.drop_last());
        if driver::over_count(arms) == driver::definite_count(arms) {
            assert forall|i: int|
                0 <= i < arms.len() && !(#[trigger] arms[i]).shape.is_maybe implies arms[i].over() by {
                if i < arms.len() - 1 {
                    assert(arms.drop_last()[i] == arms[i]);
                }
            }
        }
    }
}

/// What the search for the least index finds.
pub proof fn lemma_first_from(p: spec_fn(int) -> bool, i: int, n: int)
    requires
        i <= n,
    ensures
        i <= driver::first_from(p, i, n) <= n,
        driver::first_from(p, i, n) < n ==> p(driver::first_from(p, i, n)),
        forall|k: int| i <= k < driver::first_from(p, i, n) ==> !#[trigger] p(k),
    decreases n - i,
{
    if i < n && !p(i) {
        lemma_first_from(p, i + 1, n);
    }
}

/// The arm that is polled next: the least one that may be polled.
pub proof fn lemma_first_pollable<V>(s: JoinView<V>, i: int)
    requires
        i <= s.arms.len(),
    ensures
        i <= s.first_pollable(i) <= s.arms.len(),
        s.first_pollable(i) < s.arms.len() ==> s.arms[s.first_pollable(i)].spec_pollable(),
        forall|k: int|
            i <= k < s.first_pollable(i) ==> !(#[trigger] s.arms[k]).spec_pollable(),
{
    let p = |k: int| s.arms[k].spec_pollable();
    lemma_first_from(p, i, s.arms.len() as int);
    assert forall|k: int| i <= k < s.first_pollable(i) implies !(
    #[trigger] s.arms[k]).spec_pollable() by {
        assert(!p(k));
    }
}

/// The arm that is dropped next: the least one that must be dropped.
pub proof fn lemma_first_to_drop<V>(s: JoinView<V>)
    ensures
        0 <= s.first_to_drop() <= s.arms.len(),
        s.first_to_drop() < s.arms.len() ==> s.must_drop(s.first_to_drop()),
        forall|k: int| 0 <= k < s.first_to_drop() ==> !#[trigger] s.must_drop(k),
{
    let p = |k: int| s.must_drop(k);
    lemma_first_from(p, 0, s.arms.len() as int);
    assert forall|k: int| 0 <= k < s.first_to_drop() implies !#[trigger] s.must_drop(k) by {
        assert(!p(k));
    }
}

/// The arm whose body starts next: the least one that has a body to run.
pub proof fn lemma_first_startable<V>(s: JoinView<V>)
    ensures
        0 <= s.first_startable() <= s.arms.len(),
        s.first_startable() < s.arms.len() ==> s.arms[s.first_startable()].spec_startable(),
        forall|k: int| 0 <= k < s.first_startable() ==> !(#[trigger] s.arms[k]).spec_startable(),
{
    let p = |k: int| s.arms[k].spec_startable();
    lemma_first_from(p, 0, s.arms.len() as int);
    assert forall|k: int| 0 <= k < s.first_startable() implies !(
    #[trigger] s.arms[k]).spec_startable() by {
        assert(!p(k));
    }
}

/// The count has room for an arm that is still there to finish.
pub proof fn lemma_room_to_end<V>(s: JoinView<V>, i: int)
    requires
        s.wf(),
        0 <= i < s.arms.len(),
        s.arms[i].live,
    ensures
        s.count + s.arms[i].end_bump() <= s.arms.len(),
{
    lemma_over_count_update(s.arms, i, s.arms[i].after_end());
    lemma_counts_bounded(s.arms.update(i, s.arms[i].after_end()));
}

/// As many arms are waited for as their shapes say.
pub proof fn lemma_definite_count_shapes<V>(a: Seq<ArmState<V>>, b: Seq<ArmState<V>>)
    requires
        a.len() == b.len(),
        forall|i: int| 0 <= i < a.len() ==> (#[trigger] b[i]).shape == a[i].shape,
    ensures
        driver::definite_count(a) == driver::definite_count(b),
    decreases a.len(),
{
    if a.len() > 0 {
        assert forall|i: int| 0 <= i < a.drop_last().len() implies (
        #[trigger] b.drop_last()[i]).shape == a.drop_last()[i].shape by {
            assert(b.drop_last()[i] == b[i]);
        }
        lemma_definite_count_shapes(a.drop_last(), b.drop_last());
        assert(b.last() == b[b.len() - 1]);
    }
}

/// If each arm that is waited for is over, then all that are waited for are counted as over.
pub proof fn lemma_all_over<V>(arms: Seq<ArmState<V>>)
    requires
        forall|i: int| 0 <= i < arms.len() && !(#[trigger] arms[i]).shape.is_maybe ==> arms[i].over(),
    ensures
        driver::over_count(arms) == driver::definite_count(arms),
    decreases arms.len(),
{
    if arms.len() > 0 {
        assert forall|i: int|
            0 <= i < arms.drop_last().len() && !(
            #[trigger] arms.drop_last()[i]).shape.is_maybe implies arms.drop_last()[i].over() by {
            assert(arms.drop_last()[i] == arms[i]);
        }
        lemma_all_over(arms.drop_last());
        assert(arms.last() == arms[arms.len() - 1]);
    }
}

/// How much of an arm is still to be dropped or run.
pub open spec fn arm_weight<V>(arm: ArmState<V>) -> nat {
    (if arm.live {
        1nat
    } else {
        0nat
    }) + (if arm.item is Some {
        2nat
    } else {
        0nat
    }) + (if arm.should_run_finally {
        2nat
    } else {
        0nat
    })
}

/// How much of the arms is still to be dropped or run.
pub open spec fn weight<V>(arms: Seq<ArmState<V>>) -> nat
    decreases arms.len(),
{
    if arms.len() == 0 {
        0
    } else {
        weight(arms.drop_last()) + arm_weight(arms.last())
    }
}

/// Replacing an arm moves the weight by what changes at that arm.
pub proof fn lemma_weight_update<V>(arms: Seq<ArmState<V>>, i: int, arm: ArmState<V>)
    requires
        0 <= i < arms.len(),
    ensures
        weight(arms.update(i, arm)) == weight(arms) - arm_weight(arms[i]) + arm_weight(arm),
    decreases arms.len(),
{
    let next = arms.update(i, arm);
    if i == arms.len() - 1 {
        assert(next.drop_last() =~= arms.drop_last());
    } else {
        assert(next.drop_last() =~= arms.drop_last().update(i, arm));
        lemma_weight_update(arms.drop_last(), i, arm);
    }
}

/// Arms that weigh the same one by one weigh the same together.
pub proof fn lemma_weight_agrees<V>(a: Seq<ArmState<V>>, b: Seq<ArmState<V>>)
    requires
        a.len() == b.len(),
        forall|i: int| 0 <= i < a.len() ==> arm_weight(#[trigger] a[i]) == arm_weight(b[i]),
    ensures
        weight(a) == weight(b),
    decreases a.len(),
{
    if a.len() > 0 {
        assert forall|i: int| 0 <= i < a.drop_last().len() implies arm_weight(
            #[trigger] a.drop_last()[i],
        ) == arm_weight(b.drop_last()[i]) by {
            assert(a.drop_last()[i] == a[i]);
        }
        lemma_weight_agrees(a.drop_last(), b.drop_last());
        assert(a.last() == a[a.len() - 1]);
    }
}

} // verus!
