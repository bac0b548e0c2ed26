//! What the fragments of an expansion are for, each stated of its text and of what that does.

use vstd::prelude::*;

use crate::agreement;
use crate::agreement_laws;
use crate::agreement_rounds;
use crate::code::{Do, Handle, Stmt};
use crate::code;
use crate::driver::{Action, ArmState};
use crate::expansion::{Name, Outline};
use crate::expansion;
use crate::meaning::{Answer, Mem, Reply, Seen};
use crate::meaning;
use crate::meaning_lemmas;
use crate::program;
use crate::shape::{ArmShape, Kind};
use crate::source::SourceView;
use crate::spelling;
use crate::syntax::JoinMeMaybeArm;
use crate::syntax;
use crate::words::Words;
use crate::words;

verus! {

/// A body counts as cancelled exactly when its arm is cancelled: by its label, or because it is a
/// "maybe" arm and nothing is left to wait for. That is so from the time the body starts, for as
/// long as no other body does. In particular the body of an arm that is waited for does not count
/// as cancelled because everything has finished.
pub proof fn body_is_cancelled_with_its_arm<V>(
    m: Mem<V>,
    later: Mem<V>,
    shape: ArmShape,
    i: usize,
    total: usize,
    rest: Words,
)
    requires
        m.flow is On,
        ({
            let started = meaning::run(program::set_body_flags(shape, i), m);
            &&& later.body_is_maybe == started.body_is_maybe
            &&& later.body_flag == started.body_flag
        }),
    ensures
        words::words(expansion::set_body_flags(shape, i), rest) == code::text(
            program::set_body_flags(shape, i),
            rest,
        ),
        words::words(expansion::body_is_cancelled(total), rest) == code::cond_text(
            program::body_is_cancelled(total),
            rest,
        ),
        meaning::holds(program::body_is_cancelled(total), later) <==> {
            ||| shape.labeled && later.arms[i as int].cancelled
            ||| shape.is_maybe && later.count == total
        },
{
    broadcast use meaning_lemmas::group_meaning;

    spelling::lemma_set_body_flags(shape, i, rest);
    spelling::lemma_body_is_cancelled(total, rest);
    agreement_rounds::lemma_set_body_flags(m, shape, i);
}

/// What an arm is after it has been polled and has answered, where nobody cancelled anything
/// meanwhile: what came is kept, and the arm is dropped only if it has finished.
pub open spec fn after_poll<V>(arm: ArmState<V>, answer: Answer<V>) -> ArmState<V> {
    match (arm.shape.kind, answer) {
        (Kind::Future, Answer::Value(value)) => ArmState {
            output: Some(value),
            live: false,
            ..arm
        },
        (Kind::FutureBody, Answer::Value(value)) => ArmState {
            item: Some(value),
            live: false,
            ..arm
        },
        (Kind::Stream, Answer::Value(value)) | (Kind::StreamFinally, Answer::Value(value)) => ArmState {
            item: Some(value),
            ..arm
        },
        (Kind::Stream, Answer::End) => ArmState { live: false, ..arm },
        (Kind::StreamFinally, Answer::End) => ArmState {
            live: false,
            should_run_finally: true,
            ..arm
        },
        _ => arm,
    }
}

/// An arm that is polled keeps its future or its stream until that has finished: a future when it
/// is ready, a stream only when it has ended. After an item the stream is still held, the arm does
/// not count as finished, and the item waits for the body. An arm that has finished is dropped,
/// and counts if it is waited for and did not count before.
pub proof fn arm_is_held_until_it_finishes<V>(
    m: Mem<V>,
    shape: ArmShape,
    i: usize,
    total: usize,
    rest: Words,
)
    requires
        m.flow is On,
        i < m.arms.len(),
        m.arms[i as int].shape == shape,
        agreement::celled(m, shape, i),
        m.arms[i as int].live,
        m.arms[i as int].item is None,
        !(shape.labeled && m.arms[i as int].cancelled),
        m.count < usize::MAX,
        m.replies.len() > 0,
        m.replies[0].cancels.len() == 0,
    ensures
        words::words(expansion::poll_and_count(shape, i, total), rest) == code::text(
            program::poll_and_count(shape, i, total),
            rest,
        ),
        ({
            let arm = m.arms[i as int];
            let n = meaning::run(program::poll_and_count(shape, i, total), m);
            let over = after_poll(arm, m.replies[0].answer);
            let counts = !over.live && !shape.is_maybe && !(shape.labeled && arm.finished);
            &&& n.arms == m.arms.update(
                i as int,
                ArmState {
                    finished: arm.finished || (!over.live && shape.labeled && !shape.is_maybe),
                    ..over
                },
            )
            &&& n.count == m.count + if counts {
                1int
            } else {
                0
            }
            &&& n.flow is Break <==> n.count == total
            &&& n.flow is On <==> n.count != total
            &&& n.replies == m.replies.drop_first()
            &&& n.log == m.log.push(
                Seen {
                    action: Action::PollArm(i),
                    held: meaning::held(m.arms),
                    body: m.body,
                },
            )
        }),
{
    spelling::lemma_poll_and_count(shape, i, total, rest);
    let arm = m.arms[i as int];
    let answer = m.replies[0].answer;
    let c = agreement::while_polled(m, shape, i).act(Action::PollArm(i));
    assert(c.cancel_all(m.labels, m.replies[0].cancels) == c);
    agreement::lemma_poll_runs(m, shape, i, total);
    reveal(agreement::answered);
    reveal(agreement::counted);
    let n = meaning::run(program::poll_and_count(shape, i, total), m);
    let over = after_poll(arm, answer);
    assert(n.arms =~= m.arms.update(
        i as int,
        ArmState {
            finished: arm.finished || (!over.live && shape.labeled && !shape.is_maybe),
            ..over
        },
    ));
}

/// The label of an arm stands for the canceller of that very arm, for futures and streams and for
/// bodies alike. It holds the cancelled flag of the arm, its finished flag exactly if the arm is
/// waited for, and the count; bodies reach the future or the stream of that arm through it.
pub proof fn label_stands_for_its_arm<V>(m: Mem<V>, arm: JoinMeMaybeArm, i: usize, rest: Words)
    requires
        m.flow is On,
        i < m.arms.len(),
        arm.cancel_label is Some,
    ensures
        words::words(expansion::canceller_part(arm, i), rest) == code::text(
            program::canceller(arm, i),
            rest,
        ),
        words::words(expansion::canceller_mut_part(arm, i), rest) == code::text(
            program::canceller_mut(arm, i),
            rest,
        ),
        ({
            let label = arm.cancel_label->0;
            let handle = Handle {
                cancelled: Name::Cancelled(i),
                finished: if arm.is_maybe {
                    None
                } else {
                    Some(Name::Finished(i))
                },
                count: Name::DefinitelyFinishedCount,
            };
            let n = meaning::run(program::canceller(arm, i), m);
            let k = meaning::run(program::canceller_mut(arm, i), m);
            &&& n.flow is On
            &&& n.labels == m.labels.insert(label, handle)
            &&& !n.arms[i as int].cancelled
            &&& !arm.is_maybe ==> !n.arms[i as int].finished
            &&& k.flow is On
            &&& k.labels_mut == m.labels_mut.insert(label, handle)
            &&& k.reached == m.reached.insert(label, Name::Arm(i))
        }),
{
    broadcast use meaning_lemmas::group_meaning;

    spelling::lemma_canceller(arm, i, rest);
    spelling::lemma_canceller_mut(arm, i, rest);
}

/// To cancel an arm by its label sets its cancelled flag and leaves every other arm alone. If the
/// arm is waited for, it counts as finished from then on, and the count goes up by one unless the
/// arm counted before.
pub proof fn cancelling_counts_the_arm_once<V>(
    m: Mem<V>,
    is_maybe: bool,
    i: usize,
)
    requires
        m.flow is On,
        i < m.arms.len(),
        m.count < usize::MAX,
    ensures
        ({
            let arm = m.arms[i as int];
            let n = m.cancel_by(program::handle(is_maybe, i));
            &&& n.flow is On
            &&& n.arms == m.arms.update(
                i as int,
                ArmState { cancelled: true, finished: arm.finished || !is_maybe, ..arm },
            )
            &&& n.count == m.count + if !is_maybe && !arm.finished {
                1int
            } else {
                0
            }
        }),
{
    let arm = m.arms[i as int];
    let n = m.cancel_by(program::handle(is_maybe, i));
    assert(n.arms =~= m.arms.update(
        i as int,
        ArmState { cancelled: true, finished: arm.finished || !is_maybe, ..arm },
    ));
}

proof fn lemma_set_flag_keeps<V>(m: Mem<V>, name: Name, b: bool)
    ensures
        m.set_flag(name, b).log == m.log,
        m.set_flag(name, b).replies == m.replies,
        m.set_flag(name, b).body == m.body,
{
}

proof fn lemma_cancel_keeps<V>(m: Mem<V>, labels: Map<usize, Handle>, i: usize)
    ensures
        m.cancel(labels, i).log == m.log,
        m.cancel(labels, i).replies == m.replies,
        m.cancel(labels, i).body == m.body,
{
    if let Some(label) = m.names[i as int] {
        let handle = labels[label];
        lemma_set_flag_keeps(m, handle.cancelled, true);
        if let Some(finished) = handle.finished {
            lemma_set_flag_keeps(m.set_flag(handle.cancelled, true), finished, true);
        }
    }
}

proof fn lemma_cancel_all_keeps<V>(
    m: Mem<V>,
    labels: Map<usize, Handle>,
    cancels: Seq<usize>,
)
    ensures
        ({
            let n = m.cancel_all(labels, cancels);
            &&& n.log == m.log
            &&& n.replies == m.replies
            &&& n.body == m.body
        }),
    decreases cancels.len(),
{
    if cancels.len() > 0 {
        lemma_cancel_all_keeps(m, labels, cancels.drop_last());
        lemma_cancel_keeps(m.cancel_all(labels, cancels.drop_last()), labels, cancels.last());
    }
}

/// When the running body answers that it has returned, the next thing the program does is to
/// return from the enclosing function: it polls nothing and starts nothing after that.
pub proof fn returned_body_ends_the_join<V>(
    m: Mem<V>,
    arms: Seq<JoinMeMaybeArm>,
    outline: Outline,
    rest: Words,
)
    requires
        m.flow is On,
        m.body is Some,
        m.function is Some,
        !meaning::holds(program::body_is_cancelled(outline.total), m),
        m.replies.len() > 0,
        m.replies[0].answer is End,
        m.act(Action::PollBody(m.body->0.arm)).cancel_all(
            m.function->0.labels,
            m.replies[0].cancels,
        ).flow is On,
    ensures
        words::words(expansion::run_bodies_loop(arms, outline), rest) == code::text(
            Stmt::Loop(Box::new(program::run_bodies(arms, outline))),
            rest,
        ),
        ({
            let n = meaning::run(Stmt::Loop(Box::new(program::run_bodies(arms, outline))), m);
            &&& n.flow is Returned
            &&& n.log == m.log.push(
                Seen {
                    action: Action::PollBody(m.body->0.arm),
                    held: meaning::held(m.arms),
                    body: m.body,
                },
            ).push(
                Seen { action: Action::Return, held: meaning::held(n.arms), body: m.body },
            )
            &&& n.replies == m.replies.drop_first()
        }),
{
    spelling::lemma_run_bodies(arms, outline, rest);
    let first = program::drop_cancelled_body(outline.total);
    let poll = program::poll_body(outline.total);
    let next = program::next_body(arms, outline);
    let stmt = program::run_bodies(arms, outline);
    assert(meaning::run(first, m) == m) by {
        let c = program::and(
            code::Cond::Filled(Name::RunBodyFuture),
            program::body_is_cancelled(outline.total),
        );
        meaning_lemmas::lemma_run_if(
            c,
            program::seq(
                program::drop_body(),
                program::step(Do::Assign(Name::RunBodyFuture, code::Value::Nothing)),
            ),
            m,
        );
        meaning_lemmas::lemma_holds_and(
            code::Cond::Filled(Name::RunBodyFuture),
            program::body_is_cancelled(outline.total),
            m,
        );
    }
    let acted = m.act(Action::PollBody(m.body->0.arm));
    lemma_cancel_all_keeps(acted, m.function->0.labels, m.replies[0].cancels);
    agreement_rounds::lemma_poll_body_runs(m, outline.total);
    let k = meaning::run(poll, m);
    agreement_rounds::lemma_run_two(first, poll, m, m);
    agreement_rounds::lemma_run_two(program::seq(first, poll), next, m, k);
    meaning_lemmas::lemma_run_loop(stmt, m);
    reveal_with_fuel(meaning::rounds, 2);
}

/// The expansion of every input that is accepted does what the state machine does, whatever the
/// world replies: no two of its arms have the same label.
pub proof fn accepted_join_does_as_the_state_machine<V>(
    source: SourceView,
    replies: Seq<Reply<V>>,
)
    requires
        source.parse() is Ok,
        source.parse()->Ok_0.len() <= usize::MAX,
        agreement_laws::fair(source.parse()->Ok_0, replies),
    ensures
        ({
            let arms = source.parse()->Ok_0;
            &&& words::words(expansion::expansion(arms), Words::End) == program::block_text(
                program::program(arms),
            )
            &&& agreement_laws::agrees(program::program(arms), arms, replies)
        }),
{
    let arms = source.parse()->Ok_0;
    syntax::accepted_join_is_sound(source);
    assert forall|i: int, j: int|
        0 <= i < j < arms.len() && (#[trigger] arms[i]).cancel_label is Some implies arms[i].cancel_label
        != (#[trigger] arms[j]).cancel_label by {
        assert(!source.same_label(arms[i].cancel_label, arms[j].cancel_label));
    }
    agreement_laws::expansion_does_as_the_state_machine(arms, replies);
}

} // verus!
