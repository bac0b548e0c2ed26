//! Where the variables of a program are introduced, and what its `else` belongs to.
//!
//! [`crate::meaning`] treats `let` and `=` alike. That is right as long as no `let` in an inner
//! block hides a variable that is used outside it.

use vstd::prelude::*;

use crate::code::{Cond, Do, Place, Returns, Stmt, Value, Verdict};
use crate::expansion::{Name, Outline, Part};
use crate::program;
use crate::shape::ArmShape;
use crate::syntax::JoinMeMaybeArm;

verus! {

/// Whether a statement introduces no variable.
pub open spec fn no_let(step: Do) -> bool {
    match step {
        Do::Let(_, _) | Do::LetMut(_, _) | Do::LetMutFlagRef(_, _) => false,
        Do::Pin(_, _, _) | Do::Cell(_) | Do::Label(_, _) | Do::LabelMut(_, _, _) => false,
        _ => true,
    }
}

/// Whether a block that says whether an arm has finished introduces no variable.
pub open spec fn verdict_plain(verdict: Verdict) -> bool
    decreases verdict,
{
    match verdict {
        Verdict::Bool(_) => true,
        Verdict::After(step, v) => no_let(step) && verdict_plain(*v),
        Verdict::IfElse(_, v, w) => verdict_plain(*v) && verdict_plain(*w),
        Verdict::Future(_, v, w) => verdict_plain(*v) && verdict_plain(*w),
        Verdict::Stream(_, u, v, w) => verdict_plain(*u) && verdict_plain(*v) && verdict_plain(*w),
    }
}

/// Whether a statement starts with `if`.
pub open spec fn is_if(stmt: Stmt) -> bool {
    stmt is If || stmt is IfElse || stmt is IfElseIf
}

/// Whether a statement introduces no variable that another statement could mean, and every `else`
/// without a block of its own is followed by an `if`.
#[verifier::opaque]
pub open spec fn plain(stmt: Stmt) -> bool
    decreases stmt,
{
    match stmt {
        Stmt::Skip => true,
        Stmt::Then(s, t) => plain(*s) && plain(*t),
        Stmt::Simple(step) => no_let(step),
        Stmt::If(_, s) => plain(*s),
        Stmt::IfElse(_, s, t) => plain(*s) && plain(*t),
        Stmt::IfElseIf(_, s, t) => plain(*s) && plain(*t) && is_if(*t),
        Stmt::Loop(s) => plain(*s),
        Stmt::LetReady(_, _, verdict, _) => verdict_plain(verdict),
        Stmt::IfBody(_, s) => plain(*s),
        Stmt::IfReturned(s, t) => plain(*s) && plain(*t) && is_if(*t),
        Stmt::IfTaken(_, s) => plain(*s),
        Stmt::BreakWith(_) => true,
        Stmt::Module(_, _, _) => false,
        Stmt::Function(_, _, _, _, _) => false,
    }
}

proof fn lemma_skip()
    ensures
        plain(Stmt::Skip),
{
    reveal(plain);
}

broadcast proof fn lemma_then(s: Stmt, t: Stmt)
    ensures
        #[trigger] plain(Stmt::Then(Box::new(s), Box::new(t))) == (plain(s) && plain(t)),
{
    reveal_with_fuel(plain, 2);
}

broadcast proof fn lemma_simple(step: Do)
    ensures
        #[trigger] plain(Stmt::Simple(step)) == no_let(step),
{
    reveal(plain);
}

broadcast proof fn lemma_if(c: Cond, s: Stmt)
    ensures
        #[trigger] plain(Stmt::If(c, Box::new(s))) == plain(s),
{
    reveal_with_fuel(plain, 2);
}

broadcast proof fn lemma_if_else(c: Cond, s: Stmt, t: Stmt)
    ensures
        #[trigger] plain(Stmt::IfElse(c, Box::new(s), Box::new(t))) == (plain(s) && plain(t)),
{
    reveal_with_fuel(plain, 2);
}

broadcast proof fn lemma_if_else_if(c: Cond, s: Stmt, t: Stmt)
    ensures
        #[trigger] plain(Stmt::IfElseIf(c, Box::new(s), Box::new(t))) == (plain(s) && plain(t)
            && is_if(t)),
{
    reveal_with_fuel(plain, 2);
}

broadcast proof fn lemma_loop(s: Stmt)
    ensures
        #[trigger] plain(Stmt::Loop(Box::new(s))) == plain(s),
{
    reveal_with_fuel(plain, 2);
}

broadcast proof fn lemma_let_ready(place: Place, name: Name, verdict: Verdict, b: bool)
    ensures
        #[trigger] plain(Stmt::LetReady(place, name, verdict, b)) == verdict_plain(verdict),
{
    reveal(plain);
}

broadcast proof fn lemma_if_body(name: Name, s: Stmt)
    ensures
        #[trigger] plain(Stmt::IfBody(name, Box::new(s))) == plain(s),
{
    reveal_with_fuel(plain, 2);
}

broadcast proof fn lemma_if_returned(s: Stmt, t: Stmt)
    ensures
        #[trigger] plain(Stmt::IfReturned(Box::new(s), Box::new(t))) == (plain(s) && plain(t)
            && is_if(t)),
{
    reveal_with_fuel(plain, 2);
}

broadcast proof fn lemma_if_taken(name: Name, s: Stmt)
    ensures
        #[trigger] plain(Stmt::IfTaken(name, Box::new(s))) == plain(s),
{
    reveal_with_fuel(plain, 2);
}

broadcast proof fn lemma_break_with(values: Returns)
    ensures
        #[trigger] plain(Stmt::BreakWith(values)),
{
    reveal(plain);
}

broadcast group group_plain {
    lemma_then,
    lemma_simple,
    lemma_if,
    lemma_if_else,
    lemma_if_else_if,
    lemma_loop,
    lemma_let_ready,
    lemma_if_body,
    lemma_if_returned,
    lemma_if_taken,
    lemma_break_with,
}

proof fn lemma_poll_is_ready(shape: ArmShape, i: usize)
    ensures
        verdict_plain(program::poll_is_ready(shape, i)),
{
    reveal_with_fuel(verdict_plain, 4);
}

proof fn lemma_part(which: Part, arm: JoinMeMaybeArm, i: usize, outline: Outline)
    requires
        which == Part::Poll || which == Part::DropMaybe || which == Part::DropLabeled || which
            == Part::TryBody,
    ensures
        plain(program::part(which, arm, i, outline)),
{
    broadcast use group_plain;

    lemma_skip();
    lemma_poll_is_ready(arm.spec_shape(), i);
}

proof fn lemma_parts(which: Part, arms: Seq<JoinMeMaybeArm>, n: nat, outline: Outline)
    requires
        which == Part::Poll || which == Part::DropMaybe || which == Part::DropLabeled || which
            == Part::TryBody,
    ensures
        plain(program::parts(which, arms, n, outline)),
    decreases n,
{
    broadcast use group_plain;

    lemma_skip();
    if n > 0 {
        lemma_parts(which, arms, (n - 1) as nat, outline);
        lemma_part(which, arms[n - 1], (n - 1) as usize, outline);
    }
}

/// The loop of a program introduces no variable but the one that says which arm comes first and,
/// where there are no bodies, the one that says whether an item was consumed. Each is introduced
/// at the level of the loop itself. So whatever else the loop sets is a variable that was there
/// before the loop, and keeps its value from round to round.
pub proof fn loop_hides_no_variable(arms: Seq<JoinMeMaybeArm>, outline: Outline)
    ensures
        program::round(arms, outline) == program::seq(
            program::seq(
                program::seq(
                    program::seq(
                        program::take_up_polling(arms.len() as usize, outline.bodies),
                        program::poll_all(arms, outline),
                    ),
                    program::drop_cancelled(arms, outline),
                ),
                program::bodies_or_none(arms, outline),
            ),
            program::end_or_wait(arms, outline),
        ),
        plain(program::poll_all(arms, outline)),
        plain(program::drop_cancelled(arms, outline)),
        plain(program::end_or_wait(arms, outline)),
        outline.bodies ==> plain(program::bodies_or_none(arms, outline)),
        outline.bodies ==> program::take_up_polling(arms.len() as usize, true) == program::seq(
            program::step(Do::Let(Name::FirstArm, Value::Copy(Name::NextArm))),
            program::step(Do::Assign(Name::NextArm, Value::Number(arms.len() as usize))),
        ),
        !outline.bodies ==> program::bodies_or_none(arms, outline) == program::step(
            Do::LetMut(Name::ItemConsumedFromLiveStream, Value::Bool(false)),
        ),
{
    broadcast use group_plain;

    let n = arms.len();
    lemma_skip();
    lemma_parts(Part::Poll, arms, n, outline);
    lemma_parts(Part::DropMaybe, arms, n, outline);
    lemma_parts(Part::DropLabeled, arms, n, outline);
    lemma_parts(Part::TryBody, arms, n, outline);
    assert(plain(program::run_bodies(arms, outline)));
    assert(plain(program::drop_cancelled(arms, outline)));
}

} // verus!
