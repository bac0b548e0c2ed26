//! The expansion as a program: the syntax tree that the pieces of an expansion spell.

use vstd::prelude::*;

use crate::code::{
    BodyArm, BodyArms, Cond, Do, Handle, Params, Place, Returns, Stmt, Value, Variants, Verdict,
};
use crate::code;
use crate::expansion::{Name, Outline, Part};
use crate::expansion;
use crate::shape::{ArmShape, Bump, Kind};
use crate::syntax::{ArmKind, JoinMeMaybeArm, Region};
use crate::words::Words;

verus! {

pub open spec fn seq(s: Stmt, t: Stmt) -> Stmt {
    Stmt::Then(Box::new(s), Box::new(t))
}

pub open spec fn step(step: Do) -> Stmt {
    Stmt::Simple(step)
}

pub open spec fn when(c: Cond, s: Stmt) -> Stmt {
    Stmt::If(c, Box::new(s))
}

pub open spec fn not(c: Cond) -> Cond {
    Cond::Not(Box::new(c))
}

pub open spec fn and(c: Cond, d: Cond) -> Cond {
    Cond::And(Box::new(c), Box::new(d))
}

pub open spec fn or(c: Cond, d: Cond) -> Cond {
    Cond::Or(Box::new(c), Box::new(d))
}

pub open spec fn paren(c: Cond) -> Cond {
    Cond::Paren(Box::new(c))
}

/// Whether everything that is waited for has finished.
pub open spec fn definitely_finished(total: usize) -> Cond {
    Cond::CountIs(Name::DefinitelyFinishedCount, total)
}

/// Whether the running body is cancelled.
pub open spec fn body_is_cancelled(total: usize) -> Cond {
    paren(
        or(
            paren(and(Cond::Var(Name::BodyIsMaybe), definitely_finished(total))),
            Cond::FlagOf(Name::BodyCancelledFlag),
        ),
    )
}

/// Dropping the running body.
pub open spec fn drop_body() -> Stmt {
    seq(step(Do::Assign(Name::RunBodyFuture, Value::Nothing)), step(Do::Drop(Name::RunBodyFuture)))
}

/// What the canceller of an arm is made of.
pub open spec fn handle(is_maybe: bool, i: usize) -> Handle {
    Handle {
        cancelled: Name::Cancelled(i),
        finished: if is_maybe {
            None
        } else {
            Some(Name::Finished(i))
        },
        count: Name::DefinitelyFinishedCount,
    }
}

/// The flags and the canceller of an arm with a label.
pub open spec fn canceller(arm: JoinMeMaybeArm, i: usize) -> Stmt {
    let cancelled = step(Do::Let(Name::Cancelled(i), Value::NewFlag));
    let label = step(Do::Label(arm.cancel_label->0, handle(arm.is_maybe, i)));
    if arm.cancel_label is None {
        Stmt::Skip
    } else if arm.is_maybe {
        seq(cancelled, label)
    } else {
        seq(seq(cancelled, step(Do::Let(Name::Finished(i), Value::NewFlag))), label)
    }
}

/// The canceller that the bodies see, for an arm with a label.
pub open spec fn canceller_mut(arm: JoinMeMaybeArm, i: usize) -> Stmt {
    if arm.cancel_label is None {
        Stmt::Skip
    } else {
        step(Do::LabelMut(arm.cancel_label->0, handle(arm.is_maybe, i), Name::Arm(i)))
    }
}

/// The future or the stream of an arm, pinned in place.
pub open spec fn pinned(arm: JoinMeMaybeArm, i: usize) -> Stmt {
    let input = expansion::scrutinee(arm.kind);
    if arm.cancel_label is Some {
        seq(step(Do::Pin(Name::Arm(i), false, input)), step(Do::Cell(Name::Arm(i))))
    } else {
        step(Do::Pin(Name::Arm(i), true, input))
    }
}

/// A variable that starts out empty.
pub open spec fn empty(name: Name) -> Stmt {
    step(Do::LetMut(name, Value::Nothing))
}

/// The variables beside the future or the stream of an arm.
pub open spec fn variables(kind: Kind, i: usize) -> Stmt {
    match kind {
        Kind::Future => empty(Name::ArmOutput(i)),
        Kind::FutureBody => seq(empty(Name::ArmItem(i)), empty(Name::ArmOutput(i))),
        Kind::Stream => empty(Name::ArmItem(i)),
        Kind::StreamFinally => seq(
            seq(
                empty(Name::ArmItem(i)),
                step(Do::LetMut(Name::ShouldRunFinally(i), Value::Bool(false))),
            ),
            empty(Name::ArmOutput(i)),
        ),
    }
}

/// Polling the future or the stream of an arm.
pub open spec fn poll_is_ready(shape: ArmShape, i: usize) -> Verdict {
    let no = Verdict::Bool(false);
    let yes = Verdict::Bool(true);
    match shape.kind {
        Kind::Future => Verdict::Future(
            Name::Future,
            Box::new(
                Verdict::After(Do::Assign(Name::ArmOutput(i), Value::Output), Box::new(yes)),
            ),
            Box::new(no),
        ),
        Kind::FutureBody => Verdict::Future(
            Name::Future,
            Box::new(Verdict::After(Do::Assign(Name::ArmItem(i), Value::Output), Box::new(yes))),
            Box::new(no),
        ),
        _ => Verdict::IfElse(
            Cond::Filled(Name::ArmItem(i)),
            Box::new(no),
            Box::new(
                Verdict::Stream(
                    Name::Stream,
                    Box::new(
                        Verdict::After(Do::Assign(Name::ArmItem(i), Value::Item), Box::new(no)),
                    ),
                    Box::new(
                        if shape.kind == Kind::StreamFinally {
                            Verdict::After(
                                Do::Assign(Name::ShouldRunFinally(i), Value::Bool(true)),
                                Box::new(yes),
                            )
                        } else {
                            yes
                        },
                    ),
                    Box::new(no),
                ),
            ),
        ),
    }
}

/// Counting an arm that has finished.
pub open spec fn bump_count(bump: Bump, i: usize) -> Stmt {
    let add_one = step(Do::AddOne(Name::DefinitelyFinishedCount));
    match bump {
        Bump::Never => Stmt::Skip,
        Bump::Always => add_one,
        Bump::Once => seq(
            step(Do::Swap(Name::Finished(i))),
            when(not(Cond::AlreadyFinished), add_one),
        ),
    }
}

/// Leaving the polls when everything that is waited for has finished.
pub open spec fn check_definitely_finished(total: usize) -> Stmt {
    when(definitely_finished(total), step(Do::Break))
}

/// Leaving the polls for the body of an arm, if it is to run and no other body does.
pub open spec fn leave_for_body(shape: ArmShape, i: usize) -> Stmt {
    if shape.spec_has_body() {
        let item = Cond::Filled(Name::ArmItem(i));
        when(
            and(
                Cond::Empty(Name::RunBodyFuture),
                paren(
                    if shape.spec_has_finally() {
                        or(item, Cond::Var(Name::ShouldRunFinally(i)))
                    } else {
                        item
                    },
                ),
            ),
            seq(step(Do::Assign(Name::NextArm, Value::NumberAfter(i))), step(Do::Break)),
        )
    } else {
        Stmt::Skip
    }
}

/// Polling an arm, and counting it when it finishes.
pub open spec fn poll_and_count(shape: ArmShape, i: usize, total: usize) -> Stmt {
    let polled = expansion::polled(shape);
    if shape.labeled {
        when(
            not(Cond::Flag(Name::Cancelled(i))),
            seq(
                seq(
                    seq(
                        step(Do::Lock(Name::Arm(i))),
                        Stmt::LetReady(Place::Guard, polled, poll_is_ready(shape, i), false),
                    ),
                    when(
                        Cond::IsReady,
                        seq(step(Do::ClearGuard), bump_count(shape.spec_bump(), i)),
                    ),
                ),
                check_definitely_finished(total),
            ),
        )
    } else {
        seq(
            seq(
                Stmt::LetReady(Place::Var(Name::Arm(i)), polled, poll_is_ready(shape, i), false),
                when(
                    Cond::IsReady,
                    seq(step(Do::Clear(Name::Arm(i))), bump_count(shape.spec_bump(), i)),
                ),
            ),
            check_definitely_finished(total),
        )
    }
}

/// Polling an arm whose turn it is, then leaving for its body if that is to run.
pub open spec fn poll(shape: ArmShape, i: usize, outline: Outline) -> Stmt {
    if outline.bodies {
        when(
            Cond::AtMost(Name::FirstArm, i),
            seq(poll_and_count(shape, i, outline.total), leave_for_body(shape, i)),
        )
    } else {
        poll_and_count(shape, i, outline.total)
    }
}

/// Dropping an arm, and with it what its body has yet to consume.
pub open spec fn drop_arm(shape: ArmShape, i: usize) -> Stmt {
    let clear = step(
        if shape.labeled {
            Do::ClearCell(Name::Arm(i))
        } else {
            Do::Clear(Name::Arm(i))
        },
    );
    if shape.spec_has_body() {
        seq(clear, step(Do::Assign(Name::ArmItem(i), Value::Nothing)))
    } else {
        clear
    }
}

/// Dropping an arm that was cancelled by its label.
pub open spec fn drop_labeled(shape: ArmShape, i: usize) -> Stmt {
    if shape.labeled {
        when(Cond::Flag(Name::Cancelled(i)), drop_arm(shape, i))
    } else {
        Stmt::Skip
    }
}

/// Remembering whose body is running, and going round to poll it.
pub open spec fn set_body_flags(shape: ArmShape, i: usize) -> Stmt {
    seq(
        seq(
            step(Do::Assign(Name::BodyIsMaybe, Value::Bool(shape.is_maybe))),
            step(
                Do::Assign(
                    Name::BodyCancelledFlag,
                    if shape.labeled {
                        Value::FlagRef(Name::Cancelled(i))
                    } else {
                        Value::Nothing
                    },
                ),
            ),
        ),
        step(Do::Continue),
    )
}

/// Whether the stream of an arm is still there.
pub open spec fn is_live(shape: ArmShape, i: usize) -> Cond {
    if shape.labeled {
        if shape.is_maybe {
            Cond::CellFilled(Name::Arm(i))
        } else {
            not(Cond::Flag(Name::Finished(i)))
        }
    } else {
        Cond::Filled(Name::Arm(i))
    }
}

/// Taking what the body of an arm has yet to consume, and starting the body.
pub open spec fn start_body(shape: ArmShape, i: usize) -> Stmt {
    let start = seq(
        drop_body(),
        step(
            Do::Assign(
                Name::RunBodyFuture,
                Value::Run(Name::RunBodyFn, Name::PrivateModule, Name::Variant(i)),
            ),
        ),
    );
    let consume = when(
        is_live(shape, i),
        step(Do::Assign(Name::ItemConsumedFromLiveStream, Value::Bool(true))),
    );
    Stmt::IfTaken(
        Name::ArmItem(i),
        Box::new(
            if shape.spec_is_stream() {
                seq(seq(start, consume), set_body_flags(shape, i))
            } else {
                seq(start, set_body_flags(shape, i))
            },
        ),
    )
}

/// Starting the `finally` expression of an arm.
pub open spec fn start_finally(shape: ArmShape, i: usize) -> Stmt {
    when(
        Cond::Var(Name::ShouldRunFinally(i)),
        seq(
            seq(
                seq(
                    drop_body(),
                    step(
                        Do::Assign(
                            Name::RunBodyFuture,
                            Value::RunFinally(
                                Name::RunBodyFn,
                                Name::PrivateModule,
                                Name::FinallyVariant(i),
                            ),
                        ),
                    ),
                ),
                step(Do::Assign(Name::ShouldRunFinally(i), Value::Bool(false))),
            ),
            set_body_flags(shape, i),
        ),
    )
}

/// Starting a body of an arm.
pub open spec fn try_body(shape: ArmShape, i: usize) -> Stmt {
    match shape.kind {
        Kind::Future => Stmt::Skip,
        Kind::StreamFinally => seq(start_body(shape, i), start_finally(shape, i)),
        _ => start_body(shape, i),
    }
}

/// One part of the program, for one arm.
pub open spec fn part(which: Part, arm: JoinMeMaybeArm, i: usize, outline: Outline) -> Stmt {
    let shape = arm.spec_shape();
    match which {
        Part::Canceller => canceller(arm, i),
        Part::Scrutinee => seq(pinned(arm, i), variables(shape.kind, i)),
        Part::CancellerMut => canceller_mut(arm, i),
        Part::Poll => poll(shape, i, outline),
        Part::DropMaybe => if shape.is_maybe {
            drop_arm(shape, i)
        } else {
            Stmt::Skip
        },
        Part::DropLabeled => drop_labeled(shape, i),
        Part::TryBody => try_body(shape, i),
        _ => Stmt::Skip,
    }
}

/// Whether the part consists of statements.
pub open spec fn is_stmt(which: Part) -> bool {
    which != Part::TypeParam && which != Part::Variant && which != Part::BodyArm && which
        != Part::Return
}

/// One part of the program, for the first `n` arms.
pub open spec fn parts(which: Part, arms: Seq<JoinMeMaybeArm>, n: nat, outline: Outline) -> Stmt
    decreases n,
{
    if n == 0 {
        Stmt::Skip
    } else {
        seq(
            parts(which, arms, (n - 1) as nat, outline),
            part(which, arms[n - 1], (n - 1) as usize, outline),
        )
    }
}

/// The values that the join returns for the first `n` arms.
pub open spec fn values(arms: Seq<JoinMeMaybeArm>, n: nat) -> Returns
    decreases n,
{
    if n == 0 {
        Returns::Nothing
    } else {
        let before = Box::new(values(arms, (n - 1) as nat));
        let shape = arms[n - 1].spec_shape();
        let output = Name::ArmOutput((n - 1) as usize);
        if !shape.spec_has_value() {
            Returns::Unit(before)
        } else if shape.spec_cancellable() {
            Returns::Take(before, output)
        } else {
            Returns::Expect(before, output)
        }
    }
}

/// The type parameters of the input of the bodies, for the first `n` arms.
pub open spec fn params(arms: Seq<JoinMeMaybeArm>, n: nat) -> Params
    decreases n,
{
    if n == 0 {
        Params::Nothing
    } else {
        let before = params(arms, (n - 1) as nat);
        if arms[n - 1].spec_shape().spec_has_body() {
            Params::Param(Box::new(before), Name::TypeParam((n - 1) as usize))
        } else {
            before
        }
    }
}

/// The variants of the input of the bodies, for the first `n` arms.
pub open spec fn variants(arms: Seq<JoinMeMaybeArm>, n: nat) -> Variants
    decreases n,
{
    if n == 0 {
        Variants::Nothing
    } else {
        let before = variants(arms, (n - 1) as nat);
        let i = (n - 1) as usize;
        let item = Variants::Item(Box::new(before), Name::Variant(i), Name::TypeParam(i));
        match arms[n - 1].spec_shape().kind {
            Kind::Future => before,
            Kind::StreamFinally => Variants::Finally(Box::new(item), Name::FinallyVariant(i)),
            _ => item,
        }
    }
}

/// The `=>` body of an arm.
pub open spec fn item_arm(pattern: Region, body: Region, i: usize, has_value: bool) -> BodyArm {
    BodyArm {
        module: Name::PrivateModule,
        variant: Name::Variant(i),
        pattern: Some(pattern),
        body,
        sink: if has_value {
            Some((Name::OutputTemporary, Name::ArmOutput(i)))
        } else {
            None
        },
    }
}

/// The `finally` expression of an arm.
pub open spec fn finally_arm(finally: Region, i: usize) -> BodyArm {
    BodyArm {
        module: Name::PrivateModule,
        variant: Name::FinallyVariant(i),
        pattern: None,
        body: finally,
        sink: Some((Name::OutputTemporary, Name::ArmOutput(i))),
    }
}

/// The bodies of the first `n` arms.
pub open spec fn body_arms(arms: Seq<JoinMeMaybeArm>, n: nat) -> BodyArms
    decreases n,
{
    if n == 0 {
        BodyArms::Nothing
    } else {
        let before = body_arms(arms, (n - 1) as nat);
        let i = (n - 1) as usize;
        match arms[n - 1].kind {
            ArmKind::FutureOnly { .. } => before,
            ArmKind::FutureAndBody { pattern, body, .. } => BodyArms::Arm(
                Box::new(before),
                item_arm(pattern, body, i, true),
            ),
            ArmKind::StreamAndBody { pattern, body, finally, .. } => {
                let with_item = BodyArms::Arm(
                    Box::new(before),
                    item_arm(pattern, body, i, false),
                );
                match finally {
                    Some(finally) => BodyArms::Arm(Box::new(with_item), finally_arm(finally, i)),
                    None => with_item,
                }
            },
        }
    }
}

/// Dropping everything that is cancelled.
pub open spec fn drop_cancelled(arms: Seq<JoinMeMaybeArm>, outline: Outline) -> Stmt {
    seq(
        when(
            definitely_finished(outline.total),
            parts(Part::DropMaybe, arms, arms.len(), outline),
        ),
        parts(Part::DropLabeled, arms, arms.len(), outline),
    )
}

/// The variables that belong to the running body.
pub open spec fn body_variables() -> Stmt {
    seq(
        seq(
            seq(
                seq(
                    step(Do::LetMut(Name::RunBodyFuture, Value::Nothing)),
                    step(Do::LetMut(Name::BodyIsMaybe, Value::Bool(false))),
                ),
                step(Do::LetMutFlagRef(Name::BodyCancelledFlag, Value::Nothing)),
            ),
            step(Do::LetMut(Name::NextArm, Value::Zero)),
        ),
        step(Do::LetMut(Name::ItemConsumedFromLiveStream, Value::Bool(false))),
    )
}

/// The function that runs the bodies, and the variables beside it.
pub open spec fn run_body_items(arms: Seq<JoinMeMaybeArm>, outline: Outline) -> Stmt {
    let n = arms.len();
    seq(
        seq(
            seq(
                seq(
                    Stmt::Module(Name::PrivateModule, params(arms, n), variants(arms, n)),
                    parts(Part::CancellerMut, arms, n, outline),
                ),
                step(Do::Let(Name::RunBodyNoReturn, Value::NewFlag)),
            ),
            Stmt::Function(
                Name::RunBodyFn,
                Name::Item,
                body_arms(arms, n),
                Name::RunBodyNoReturn,
                true,
            ),
        ),
        body_variables(),
    )
}

/// Dropping the running body if it is cancelled.
pub open spec fn drop_cancelled_body(total: usize) -> Stmt {
    when(
        and(Cond::Filled(Name::RunBodyFuture), body_is_cancelled(total)),
        seq(drop_body(), step(Do::Assign(Name::RunBodyFuture, Value::Nothing))),
    )
}

/// Polling the running body.
pub open spec fn poll_body(total: usize) -> Stmt {
    Stmt::IfBody(
        Name::RunBodyFuture,
        Box::new(
            seq(
                step(Do::PollBody),
                Stmt::IfReturned(
                    Box::new(step(Do::Return)),
                    Box::new(
                        Stmt::IfElseIf(
                            Cond::Flag(Name::RunBodyNoReturn),
                            Box::new(step(Do::Store(Name::RunBodyNoReturn, false))),
                            Box::new(
                                Stmt::IfElse(
                                    body_is_cancelled(total),
                                    Box::new(Stmt::Skip),
                                    Box::new(step(Do::Break)),
                                ),
                            ),
                        ),
                    ),
                ),
            ),
        ),
    )
}

/// Dropping the body that has run, and starting the next.
pub open spec fn next_body(arms: Seq<JoinMeMaybeArm>, outline: Outline) -> Stmt {
    seq(
        seq(
            seq(drop_body(), step(Do::Assign(Name::RunBodyFuture, Value::Nothing))),
            parts(Part::TryBody, arms, arms.len(), outline),
        ),
        when(Cond::Empty(Name::RunBodyFuture), step(Do::Break)),
    )
}

/// Running the bodies, one at a time, until none is left or one waits.
pub open spec fn run_bodies(arms: Seq<JoinMeMaybeArm>, outline: Outline) -> Stmt {
    seq(
        seq(drop_cancelled_body(outline.total), poll_body(outline.total)),
        next_body(arms, outline),
    )
}

/// Running the bodies, then dropping what is cancelled, over again if that cancels the body that
/// is running.
pub open spec fn run_and_sweep(arms: Seq<JoinMeMaybeArm>, outline: Outline) -> Stmt {
    seq(
        seq(Stmt::Loop(Box::new(run_bodies(arms, outline))), drop_cancelled(arms, outline)),
        when(
            not(paren(and(Cond::Filled(Name::RunBodyFuture), body_is_cancelled(outline.total)))),
            step(Do::Break),
        ),
    )
}

/// Everything that stands before the loop.
pub open spec fn beginning(arms: Seq<JoinMeMaybeArm>, outline: Outline) -> Stmt {
    let n = arms.len();
    let start = seq(
        seq(
            step(Do::Let(Name::DefinitelyFinishedCount, Value::NewCount)),
            parts(Part::Canceller, arms, n, outline),
        ),
        parts(Part::Scrutinee, arms, n, outline),
    );
    if outline.bodies {
        seq(start, run_body_items(arms, outline))
    } else {
        start
    }
}

/// Going on where polling left off, up to the last arm.
pub open spec fn take_up_polling(n: usize, bodies: bool) -> Stmt {
    if bodies {
        seq(
            step(Do::Let(Name::FirstArm, Value::Copy(Name::NextArm))),
            step(Do::Assign(Name::NextArm, Value::Number(n))),
        )
    } else {
        Stmt::Skip
    }
}

/// Polling the arms, if something is left to wait for.
pub open spec fn poll_all(arms: Seq<JoinMeMaybeArm>, outline: Outline) -> Stmt {
    when(
        not(definitely_finished(outline.total)),
        Stmt::Loop(
            Box::new(seq(parts(Part::Poll, arms, arms.len(), outline), step(Do::Break))),
        ),
    )
}

/// Running the bodies, where there are any.
pub open spec fn bodies_or_none(arms: Seq<JoinMeMaybeArm>, outline: Outline) -> Stmt {
    if outline.bodies {
        Stmt::Loop(Box::new(run_and_sweep(arms, outline)))
    } else {
        step(Do::LetMut(Name::ItemConsumedFromLiveStream, Value::Bool(false)))
    }
}

/// Returning the values, or waiting.
pub open spec fn end_or_wait(arms: Seq<JoinMeMaybeArm>, outline: Outline) -> Stmt {
    let n = arms.len();
    let give = Stmt::BreakWith(values(arms, n));
    let wait = when(not(Cond::Var(Name::ItemConsumedFromLiveStream)), step(Do::Yield));
    if outline.bodies {
        Stmt::IfElseIf(
            and(definitely_finished(outline.total), Cond::Empty(Name::RunBodyFuture)),
            Box::new(seq(seq(drop_body(), step(Do::Drop(Name::RunBodyFn))), give)),
            Box::new(
                when(
                    Cond::Equals(Name::NextArm, n as usize),
                    seq(
                        seq(wait, step(Do::Assign(Name::NextArm, Value::Zero))),
                        step(Do::Assign(Name::ItemConsumedFromLiveStream, Value::Bool(false))),
                    ),
                ),
            ),
        )
    } else {
        Stmt::IfElseIf(definitely_finished(outline.total), Box::new(give), Box::new(wait))
    }
}

/// One round of the loop.
pub open spec fn round(arms: Seq<JoinMeMaybeArm>, outline: Outline) -> Stmt {
    seq(
        seq(
            seq(
                seq(
                    take_up_polling(arms.len() as usize, outline.bodies),
                    poll_all(arms, outline),
                ),
                drop_cancelled(arms, outline),
            ),
            bodies_or_none(arms, outline),
        ),
        end_or_wait(arms, outline),
    )
}

/// The whole program, without the braces round it.
pub open spec fn program(arms: Seq<JoinMeMaybeArm>) -> Stmt {
    let outline = expansion::outline(arms);
    seq(beginning(arms, outline), Stmt::Loop(Box::new(round(arms, outline))))
}

/// How a program is spelled, with the braces round it.
pub open spec fn block_text(stmt: Stmt) -> Words {
    code::brace(code::text(stmt, code::close_brace(Words::End)))
}

} // verus!
