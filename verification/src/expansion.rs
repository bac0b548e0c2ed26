//! What the macro expands to.
//!
//! The expansion is a list of pieces: source text, generated names, and regions of the input that
//! stand in it as they are. It goes, arm by arm, through the loop that the state machine of
//! [`crate::driver`] takes its steps in. The text is read word by word in [`crate::words`], as a
//! program of [`crate::code`], and [`crate::meaning`] says what such a program does; in
//! [`crate::agreement_laws`] it is proved to take the same actions as the state machine.

use vstd::prelude::*;

use crate::expansion::Piece::{Code, Id, Input, Number, Tree};
use crate::shape::{ArmShape, Bump, Kind};
use crate::syntax::{ArmKind, JoinMeMaybeArm, Region};

verus! {

/// A name that the macro makes up.
#[derive(Clone, Copy, Debug, PartialEq, Eq, Structural)]
pub enum Name {
    /// How many of the arms that are waited for have finished.
    DefinitelyFinishedCount,
    /// The finished flag of an arm.
    Finished(usize),
    /// The flag that makes the `finally` expression of an arm run.
    ShouldRunFinally(usize),
    /// The cancelled flag of an arm.
    Cancelled(usize),
    /// The future or the stream of an arm.
    Arm(usize),
    /// What the body of an arm has yet to consume.
    ArmItem(usize),
    /// The value of an arm.
    ArmOutput(usize),
    /// The closure that runs the bodies.
    RunBodyFn,
    /// The body that is running.
    RunBodyFuture,
    /// The flag that a body sets when it has run to its end.
    RunBodyNoReturn,
    /// Whether the running body is that of a "maybe" arm.
    BodyIsMaybe,
    /// The cancelled flag of the arm whose body is running.
    BodyCancelledFlag,
    /// The parameter of the closure that runs the bodies.
    Item,
    /// A future that is being polled.
    Future,
    /// A stream that is being polled.
    Stream,
    /// Whether a body took an item of a stream that is still there.
    ItemConsumedFromLiveStream,
    /// Where polling goes on once the bodies have run.
    NextArm,
    /// The first arm that is to be polled.
    FirstArm,
    /// The module that holds the input type of the bodies.
    PrivateModule,
    /// The type of what an arm gives to its body.
    TypeParam(usize),
    /// The input of the body of an arm.
    Variant(usize),
    /// The input of the `finally` expression of an arm.
    FinallyVariant(usize),
    /// The value of a body.
    OutputTemporary,
}

/// A piece of the expansion.
#[derive(Clone, Copy, Debug)]
pub enum Piece {
    /// Source text.
    Code(&'static str),
    /// A generated name.
    Id(Name),
    /// A number, as a `usize` literal.
    Number(usize),
    /// A region of the input, as it stands there.
    Input(Region),
    /// One token tree of the input, as it stands there.
    Tree(usize),
}

/// The parts of the expansion that repeat for each arm.
#[derive(Clone, Copy, Debug, PartialEq, Eq, Structural)]
pub enum Part {
    /// The flags and the canceller of an arm with a label.
    Canceller,
    /// The future or the stream, and the variables beside it.
    Scrutinee,
    /// The type parameter of the input of the bodies.
    TypeParam,
    /// The variants of the input of the bodies.
    Variant,
    /// The bodies.
    BodyArm,
    /// The canceller that the bodies see.
    CancellerMut,
    /// Polling the arm, and counting it when it finishes.
    Poll,
    /// Dropping a "maybe" arm when nothing is left to wait for.
    DropMaybe,
    /// Dropping an arm that was cancelled by its label.
    DropLabeled,
    /// Starting a body of the arm.
    TryBody,
    /// The value that the join returns for the arm.
    Return,
}

/// What the parts of an expansion need to know of the join as a whole.
#[derive(Clone, Copy, Debug, PartialEq, Eq, Structural)]
pub struct Outline {
    /// How many arms are waited for.
    pub total: usize,
    /// Whether some arm has a body.
    pub bodies: bool,
}

/// How many arms are waited for.
pub open spec fn total_definitely(arms: Seq<JoinMeMaybeArm>) -> nat
    decreases arms.len(),
{
    if arms.len() == 0 {
        0
    } else {
        total_definitely(arms.drop_last()) + if arms.last().is_maybe {
            0nat
        } else {
            1nat
        }
    }
}

/// Whether some arm has a body.
pub open spec fn has_bodies(arms: Seq<JoinMeMaybeArm>) -> bool {
    exists|i: int| 0 <= i < arms.len() && (#[trigger] arms[i]).spec_shape().spec_has_body()
}

/// The label of an arm that has one.
pub open spec fn label(arm: JoinMeMaybeArm) -> Piece {
    Tree(arm.cancel_label->0)
}

/// The future or the stream of an arm.
pub open spec fn scrutinee(kind: ArmKind) -> Region {
    match kind {
        ArmKind::FutureOnly { future } => future,
        ArmKind::FutureAndBody { future, .. } => future,
        ArmKind::StreamAndBody { stream, .. } => stream,
    }
}

/// Whether everything that is waited for has finished.
pub open spec fn definitely_finished(total: usize) -> Seq<Piece> {
    seq![
        Code("("),
        Id(Name::DefinitelyFinishedCount),
        Code(".load(::core::sync::atomic::Ordering::Relaxed) =="),
        Number(total),
        Code(")"),
    ]
}

/// Reading the cancelled flag of an arm.
pub open spec fn cancelled(i: usize) -> Seq<Piece> {
    seq![Id(Name::Cancelled(i)), Code(".load(::core::sync::atomic::Ordering::Relaxed)")]
}

/// Dropping the running body.
pub open spec fn drop_body() -> Seq<Piece> {
    seq![
        Id(Name::RunBodyFuture),
        Code("= None; drop("),
        Id(Name::RunBodyFuture),
        Code(");"),
    ]
}

/// The flags and the canceller of an arm with a label.
pub open spec fn canceller_part(arm: JoinMeMaybeArm, i: usize) -> Seq<Piece> {
    if arm.cancel_label is None {
        seq![]
    } else if arm.is_maybe {
        seq![
            Code("let"),
            Id(Name::Cancelled(i)),
            Code("= ::core::sync::atomic::AtomicBool::new(false); #[allow(unused_variables)] let"),
            label(arm),
            Code("= &::join_me_maybe::_impl::new_canceller(&"),
            Id(Name::Cancelled(i)),
            Code(", None, &"),
            Id(Name::DefinitelyFinishedCount),
            Code(",);"),
        ]
    } else {
        seq![
            Code("let"),
            Id(Name::Cancelled(i)),
            Code("= ::core::sync::atomic::AtomicBool::new(false); let"),
            Id(Name::Finished(i)),
            Code("= ::core::sync::atomic::AtomicBool::new(false); #[allow(unused_variables)] let"),
            label(arm),
            Code("= &::join_me_maybe::_impl::new_canceller(&"),
            Id(Name::Cancelled(i)),
            Code(", ::core::option::Option::Some(&"),
            Id(Name::Finished(i)),
            Code("), &"),
            Id(Name::DefinitelyFinishedCount),
            Code(",);"),
        ]
    }
}

/// The future or the stream of an arm, pinned in place.
pub open spec fn pinned(arm: JoinMeMaybeArm, i: usize) -> Seq<Piece> {
    if arm.cancel_label is Some {
        seq![
            Code("let"),
            Id(Name::Arm(i)),
            Code("= ::core::pin::pin!(::core::option::Option::Some("),
            Input(scrutinee(arm.kind)),
            Code(")); let"),
            Id(Name::Arm(i)),
            Code("= ::join_me_maybe::_impl::AtomicRefCell::new("),
            Id(Name::Arm(i)),
            Code(");"),
        ]
    } else {
        seq![
            Code("let mut"),
            Id(Name::Arm(i)),
            Code("= ::core::pin::pin!(::core::option::Option::Some("),
            Input(scrutinee(arm.kind)),
            Code("));"),
        ]
    }
}

/// A variable that starts out empty.
pub open spec fn empty_variable(name: Name) -> Seq<Piece> {
    seq![Code("let mut"), Id(name), Code("= ::core::option::Option::None;")]
}

/// The variables beside the future or the stream of an arm.
pub open spec fn variables(kind: Kind, i: usize) -> Seq<Piece> {
    match kind {
        Kind::Future => empty_variable(Name::ArmOutput(i)),
        Kind::FutureBody => empty_variable(Name::ArmItem(i)) + empty_variable(Name::ArmOutput(i)),
        Kind::Stream => empty_variable(Name::ArmItem(i)),
        Kind::StreamFinally => empty_variable(Name::ArmItem(i)) + seq![
            Code("let mut"),
            Id(Name::ShouldRunFinally(i)),
            Code("= false;"),
        ] + empty_variable(Name::ArmOutput(i)),
    }
}

/// The variants of the input of the bodies that belong to an arm.
pub open spec fn variant_part(kind: Kind, i: usize) -> Seq<Piece> {
    if kind == Kind::Future {
        seq![]
    } else if kind == Kind::StreamFinally {
        seq![
            Id(Name::Variant(i)),
            Code("("),
            Id(Name::TypeParam(i)),
            Code("),"),
            Id(Name::FinallyVariant(i)),
            Code(","),
        ]
    } else {
        seq![Id(Name::Variant(i)), Code("("), Id(Name::TypeParam(i)), Code("),")]
    }
}

/// A body that gives the arm its value.
pub open spec fn value_of_body(body: Region, i: usize) -> Seq<Piece> {
    seq![
        Code("=> { let"),
        Id(Name::OutputTemporary),
        Code("= {"),
        Input(body),
        Code("}; #[allow(unreachable_code)] {"),
        Id(Name::ArmOutput(i)),
        Code("= ::core::option::Option::Some("),
        Id(Name::OutputTemporary),
        Code("); } }"),
    ]
}

/// The bodies of an arm.
pub open spec fn body_part(kind: ArmKind, i: usize) -> Seq<Piece> {
    match kind {
        ArmKind::FutureOnly { .. } => seq![],
        ArmKind::FutureAndBody { pattern, body, .. } => seq![
            Id(Name::PrivateModule),
            Code("::ArmsInput::"),
            Id(Name::Variant(i)),
            Code("("),
            Input(pattern),
            Code(")"),
        ] + value_of_body(body, i),
        ArmKind::StreamAndBody { pattern, body, finally, .. } => seq![
            Id(Name::PrivateModule),
            Code("::ArmsInput::"),
            Id(Name::Variant(i)),
            Code("("),
            Input(pattern),
            Code(") => { let _: () ="),
            Input(body),
            Code("; }"),
        ] + match finally {
            Some(finally) => seq![
                Id(Name::PrivateModule),
                Code("::ArmsInput::"),
                Id(Name::FinallyVariant(i)),
            ] + value_of_body(finally, i),
            None => seq![],
        },
    }
}

/// The canceller that the bodies see, for an arm with a label.
pub open spec fn canceller_mut_part(arm: JoinMeMaybeArm, i: usize) -> Seq<Piece> {
    if arm.cancel_label is None {
        seq![]
    } else if arm.is_maybe {
        seq![
            Code("#[allow(unused_variables)] let"),
            label(arm),
            Code("= &::join_me_maybe::_impl::new_canceller_mut(&"),
            Id(Name::Cancelled(i)),
            Code(", None, &"),
            Id(Name::DefinitelyFinishedCount),
            Code(", &"),
            Id(Name::Arm(i)),
            Code(",);"),
        ]
    } else {
        seq![
            Code("#[allow(unused_variables)] let"),
            label(arm),
            Code("= &::join_me_maybe::_impl::new_canceller_mut(&"),
            Id(Name::Cancelled(i)),
            Code(", ::core::option::Option::Some(&"),
            Id(Name::Finished(i)),
            Code("), &"),
            Id(Name::DefinitelyFinishedCount),
            Code(", &"),
            Id(Name::Arm(i)),
            Code(",);"),
        ]
    }
}

/// The name under which the future or the stream of an arm is polled.
pub open spec fn polled(shape: ArmShape) -> Name {
    if shape.spec_is_stream() {
        Name::Stream
    } else {
        Name::Future
    }
}

/// Polling a future, which says whether it has finished, and keeping its output.
pub open spec fn poll_future(sink: Name) -> Seq<Piece> {
    seq![
        Code("match ::join_me_maybe::_impl::PollOnce("),
        Id(Name::Future),
        Code(").await { ::core::task::Poll::Ready(output) => {"),
        Id(sink),
        Code(
            "= ::core::option::Option::Some(output); true } ::core::task::Poll::Pending => false, }",
        ),
    ]
}

/// Polling a stream whose last item has been consumed, which says whether it has ended, and
/// keeping its item.
pub open spec fn poll_stream(finally: bool, i: usize) -> Seq<Piece> {
    seq![
        Code("if"),
        Id(Name::ArmItem(i)),
        Code(".is_some() { false } else { match ::join_me_maybe::_impl::PollNextOnce("),
        Id(Name::Stream),
        Code(
            ").await { ::core::task::Poll::Ready(::core::option::Option::Some(item)) => {",
        ),
        Id(Name::ArmItem(i)),
        Code(
            "= ::core::option::Option::Some(item); false } ::core::task::Poll::Ready(None) => {",
        ),
    ] + (if finally {
        seq![Id(Name::ShouldRunFinally(i)), Code("= true;")]
    } else {
        seq![]
    }) + seq![Code("true } ::core::task::Poll::Pending => false, } }")]
}

/// Polling the future or the stream of an arm.
pub open spec fn poll_is_ready(shape: ArmShape, i: usize) -> Seq<Piece> {
    match shape.kind {
        Kind::Future => poll_future(Name::ArmOutput(i)),
        Kind::FutureBody => poll_future(Name::ArmItem(i)),
        Kind::Stream => poll_stream(false, i),
        Kind::StreamFinally => poll_stream(true, i),
    }
}

/// Counting an arm that has finished.
pub open spec fn bump_count(bump: Bump, i: usize) -> Seq<Piece> {
    match bump {
        Bump::Never => seq![],
        Bump::Always => seq![
            Id(Name::DefinitelyFinishedCount),
            Code(".fetch_add(1, ::core::sync::atomic::Ordering::Relaxed);"),
        ],
        Bump::Once => seq![
            Code("let already_finished ="),
            Id(Name::Finished(i)),
            Code(".swap(true, ::core::sync::atomic::Ordering::Relaxed); if !already_finished {"),
            Id(Name::DefinitelyFinishedCount),
            Code(".fetch_add(1, ::core::sync::atomic::Ordering::Relaxed); }"),
        ],
    }
}

/// Leaving the polls when everything that is waited for has finished.
pub open spec fn check_definitely_finished(total: usize) -> Seq<Piece> {
    seq![Code("if")] + definitely_finished(total) + seq![Code("{ break; }")]
}

/// Leaving the polls for the body of an arm, if it is to run and no other body does.
pub open spec fn leave_for_body(shape: ArmShape, i: usize) -> Seq<Piece> {
    if shape.spec_has_body() {
        seq![
            Code("if"),
            Id(Name::RunBodyFuture),
            Code(".is_none() && ("),
            Id(Name::ArmItem(i)),
            Code(".is_some()"),
        ] + (if shape.spec_has_finally() {
            seq![Code("||"), Id(Name::ShouldRunFinally(i))]
        } else {
            seq![]
        }) + seq![Code(") {"), Id(Name::NextArm), Code("="), Number(i), Code("+ 1; break; }")]
    } else {
        seq![]
    }
}

/// Polling an arm, and counting it when it finishes.
pub open spec fn poll_and_count(shape: ArmShape, i: usize, total: usize) -> Seq<Piece> {
    if shape.labeled {
        seq![Code("if !")] + cancelled(i) + seq![
            Code("{ let mut guard ="),
            Id(Name::Arm(i)),
            Code(".borrow_mut(); let is_ready = if let ::core::option::Option::Some("),
            Id(polled(shape)),
            Code(") = guard.as_mut().as_pin_mut() {"),
        ] + poll_is_ready(shape, i) + seq![
            Code(
                "} else { false }; if is_ready { guard.set(::core::option::Option::None);",
            ),
        ] + bump_count(shape.spec_bump(), i) + seq![Code("}")] + check_definitely_finished(total)
            + seq![Code("}")]
    } else {
        seq![
            Code("let is_ready = if let ::core::option::Option::Some("),
            Id(polled(shape)),
            Code(") ="),
            Id(Name::Arm(i)),
            Code(".as_mut().as_pin_mut() {"),
        ] + poll_is_ready(shape, i) + seq![
            Code("} else { false }; if is_ready {"),
            Id(Name::Arm(i)),
            Code(".set(::core::option::Option::None);"),
        ] + bump_count(shape.spec_bump(), i) + seq![Code("}")] + check_definitely_finished(total)
    }
}

/// Polling an arm whose turn it is, then leaving for its body if that is to run.
pub open spec fn poll_part(shape: ArmShape, i: usize, outline: Outline) -> Seq<Piece> {
    if outline.bodies {
        seq![Code("if"), Id(Name::FirstArm), Code("<="), Number(i), Code("{")] + poll_and_count(
            shape,
            i,
            outline.total,
        ) + leave_for_body(shape, i) + seq![Code("}")]
    } else {
        poll_and_count(shape, i, outline.total)
    }
}

/// Dropping an arm, and with it what its body has yet to consume.
pub open spec fn drop_arm(shape: ArmShape, i: usize) -> Seq<Piece> {
    (if shape.labeled {
        seq![
            Id(Name::Arm(i)),
            Code(".borrow_mut().set(::core::option::Option::None);"),
        ]
    } else {
        seq![Id(Name::Arm(i)), Code(".set(::core::option::Option::None);")]
    }) + (if shape.spec_has_body() {
        seq![Id(Name::ArmItem(i)), Code("= None;")]
    } else {
        seq![]
    })
}

/// Dropping an arm that was cancelled by its label.
pub open spec fn drop_labeled_part(shape: ArmShape, i: usize) -> Seq<Piece> {
    if shape.labeled {
        seq![Code("if")] + cancelled(i) + seq![Code("{")] + drop_arm(shape, i) + seq![Code("}")]
    } else {
        seq![]
    }
}

/// Remembering whose body is running, and going round to poll it.
pub open spec fn set_body_flags(shape: ArmShape, i: usize) -> Seq<Piece> {
    seq![
        Id(Name::BodyIsMaybe),
        Code("="),
        Code(if shape.is_maybe { "true" } else { "false" }),
        Code(";"),
        Id(Name::BodyCancelledFlag),
        Code("="),
    ] + (if shape.labeled {
        seq![Code("::core::option::Option::Some(&"), Id(Name::Cancelled(i)), Code(")")]
    } else {
        seq![Code("None")]
    }) + seq![Code("; continue;")]
}

/// Whether the stream of an arm is still there.
pub open spec fn is_live(shape: ArmShape, i: usize) -> Seq<Piece> {
    if shape.labeled {
        if shape.is_maybe {
            seq![Id(Name::Arm(i)), Code(".borrow().is_some()")]
        } else {
            seq![
                Code("!"),
                Id(Name::Finished(i)),
                Code(".load(::core::sync::atomic::Ordering::Relaxed)"),
            ]
        }
    } else {
        seq![Id(Name::Arm(i)), Code(".is_some()")]
    }
}

/// Taking what the body of an arm has yet to consume, and starting the body.
pub open spec fn start_body(i: usize) -> Seq<Piece> {
    seq![
        Code("if let ::core::option::Option::Some(item) ="),
        Id(Name::ArmItem(i)),
        Code(".take() {"),
    ] + drop_body() + seq![
        Id(Name::RunBodyFuture),
        Code("= ::core::option::Option::Some("),
        Id(Name::RunBodyFn),
        Code("("),
        Id(Name::PrivateModule),
        Code("::ArmsInput::"),
        Id(Name::Variant(i)),
        Code("(item)));"),
    ]
}

/// Starting the `finally` expression of an arm.
pub open spec fn start_finally(shape: ArmShape, i: usize) -> Seq<Piece> {
    seq![Code("if"), Id(Name::ShouldRunFinally(i)), Code("{")] + drop_body() + seq![
        Id(Name::RunBodyFuture),
        Code("= ::core::option::Option::Some("),
        Id(Name::RunBodyFn),
        Code("("),
        Id(Name::PrivateModule),
        Code("::ArmsInput::"),
        Id(Name::FinallyVariant(i)),
        Code("));"),
        Id(Name::ShouldRunFinally(i)),
        Code("= false;"),
    ] + set_body_flags(shape, i) + seq![Code("}")]
}

/// Starting a body of an arm.
pub open spec fn try_body_part(shape: ArmShape, i: usize) -> Seq<Piece> {
    match shape.kind {
        Kind::Future => seq![],
        Kind::FutureBody => start_body(i) + set_body_flags(shape, i) + seq![Code("}")],
        _ => start_body(i) + seq![Code("if")] + is_live(shape, i) + seq![
            Code("{"),
            Id(Name::ItemConsumedFromLiveStream),
            Code("= true; }"),
        ] + set_body_flags(shape, i) + seq![Code("}")] + if shape.spec_has_finally() {
            start_finally(shape, i)
        } else {
            seq![]
        },
    }
}

/// The value that the join returns for an arm.
pub open spec fn return_part(shape: ArmShape, i: usize) -> Seq<Piece> {
    if !shape.spec_has_value() {
        seq![Code("(),")]
    } else if shape.spec_cancellable() {
        seq![Id(Name::ArmOutput(i)), Code(".take(),")]
    } else {
        seq![
            Id(Name::ArmOutput(i)),
            Code(".take().expect(\"this arm can't be cancelled\"),"),
        ]
    }
}

/// One part of the expansion, for one arm.
pub open spec fn part(which: Part, arm: JoinMeMaybeArm, i: usize, outline: Outline) -> Seq<Piece> {
    let shape = arm.spec_shape();
    match which {
        Part::Canceller => canceller_part(arm, i),
        Part::Scrutinee => pinned(arm, i) + variables(shape.kind, i),
        Part::TypeParam => if shape.spec_has_body() {
            seq![Id(Name::TypeParam(i)), Code(",")]
        } else {
            seq![]
        },
        Part::Variant => variant_part(shape.kind, i),
        Part::BodyArm => body_part(arm.kind, i),
        Part::CancellerMut => canceller_mut_part(arm, i),
        Part::Poll => poll_part(shape, i, outline),
        Part::DropMaybe => if shape.is_maybe {
            drop_arm(shape, i)
        } else {
            seq![]
        },
        Part::DropLabeled => drop_labeled_part(shape, i),
        Part::TryBody => try_body_part(shape, i),
        Part::Return => return_part(shape, i),
    }
}

/// One part of the expansion, for the first `n` arms.
pub open spec fn parts(which: Part, arms: Seq<JoinMeMaybeArm>, n: nat, outline: Outline) -> Seq<Piece>
    decreases n,
{
    if n == 0 {
        seq![]
    } else {
        parts(which, arms, (n - 1) as nat, outline) + part(
            which,
            arms[n - 1],
            (n - 1) as usize,
            outline,
        )
    }
}

/// One part of the expansion, for all arms.
pub open spec fn all_parts(which: Part, arms: Seq<JoinMeMaybeArm>, outline: Outline) -> Seq<Piece> {
    parts(which, arms, arms.len(), outline)
}

/// Dropping everything that is cancelled.
pub open spec fn drop_cancelled(arms: Seq<JoinMeMaybeArm>, outline: Outline) -> Seq<Piece> {
    seq![Code("if")] + definitely_finished(outline.total) + seq![Code("{")] + all_parts(
        Part::DropMaybe,
        arms,
        outline,
    ) + seq![Code("}")] + all_parts(Part::DropLabeled, arms, outline)
}

/// The closure that runs the bodies, and the variables beside it.
pub open spec fn run_body_items(arms: Seq<JoinMeMaybeArm>, outline: Outline) -> Seq<Piece> {
    seq![
        Code("mod"),
        Id(Name::PrivateModule),
        Code("{ pub enum ArmsInput<"),
    ] + all_parts(Part::TypeParam, arms, outline) + seq![Code("> {")] + all_parts(
        Part::Variant,
        arms,
        outline,
    ) + seq![Code("} }")] + all_parts(Part::CancellerMut, arms, outline) + seq![
        Code("let"),
        Id(Name::RunBodyNoReturn),
        Code("= ::core::sync::atomic::AtomicBool::new(false); let mut"),
        Id(Name::RunBodyFn),
        Code("= async |"),
        Id(Name::Item),
        Code("| { match"),
        Id(Name::Item),
        Code("{"),
    ] + all_parts(Part::BodyArm, arms, outline) + seq![
        Code("} #[allow(unreachable_code)] {"),
        Id(Name::RunBodyNoReturn),
        Code(
            ".store(true, ::core::sync::atomic::Ordering::Relaxed); ::core::future::pending().await } }; let mut",
        ),
        Id(Name::RunBodyFuture),
        Code("= ::core::option::Option::None; let mut"),
        Id(Name::BodyIsMaybe),
        Code("= false; let mut"),
        Id(Name::BodyCancelledFlag),
        Code(
            ": ::core::option::Option<&::core::sync::atomic::AtomicBool> = ::core::option::Option::None; let mut",
        ),
        Id(Name::NextArm),
        Code("= 0usize; let mut"),
        Id(Name::ItemConsumedFromLiveStream),
        Code("= false;"),
    ]
}

/// Whether the running body is cancelled.
pub open spec fn body_is_cancelled(total: usize) -> Seq<Piece> {
    seq![Code("(("), Id(Name::BodyIsMaybe), Code("&&")] + definitely_finished(total) + seq![
        Code(") ||"),
        Id(Name::BodyCancelledFlag),
        Code(".is_some_and(|flag| flag.load(::core::sync::atomic::Ordering::Relaxed)))"),
    ]
}

/// Running the bodies, one at a time, until none is left or one waits.
pub open spec fn run_bodies_loop(arms: Seq<JoinMeMaybeArm>, outline: Outline) -> Seq<Piece> {
    seq![Code("loop { if"), Id(Name::RunBodyFuture), Code(".is_some() &&")] + body_is_cancelled(
        outline.total,
    ) + seq![Code("{")] + drop_body() + seq![
        Id(Name::RunBodyFuture),
        Code("= None; } if let ::core::option::Option::Some(future) ="),
        Id(Name::RunBodyFuture),
        Code(
            ".as_mut() { let poll = ::join_me_maybe::_impl::PollOnce(unsafe { ::core::pin::Pin::new_unchecked(future) }).await; if let ::core::task::Poll::Ready(output) = poll { return output; } else if",
        ),
        Id(Name::RunBodyNoReturn),
        Code(".load(::core::sync::atomic::Ordering::Relaxed) {"),
        Id(Name::RunBodyNoReturn),
        Code(".store(false, ::core::sync::atomic::Ordering::Relaxed); } else if"),
    ] + body_is_cancelled(outline.total) + seq![Code("{ } else { break; } }")] + drop_body() + seq![
        Id(Name::RunBodyFuture),
        Code("= None;"),
    ] + all_parts(Part::TryBody, arms, outline) + seq![
        Code("if"),
        Id(Name::RunBodyFuture),
        Code(".is_none() { break; } }"),
    ]
}

/// Running the bodies, then dropping what is cancelled, over again if that cancels the body that
/// is running.
pub open spec fn run_and_sweep(arms: Seq<JoinMeMaybeArm>, outline: Outline) -> Seq<Piece> {
    seq![Code("loop {")] + run_bodies_loop(arms, outline) + drop_cancelled(arms, outline) + seq![
        Code("if !("),
        Id(Name::RunBodyFuture),
        Code(".is_some() &&"),
    ] + body_is_cancelled(outline.total) + seq![Code(") { break; } }")]
}

/// What the parts of the expansion need to know of these arms.
pub open spec fn outline(arms: Seq<JoinMeMaybeArm>) -> Outline {
    Outline { total: total_definitely(arms) as usize, bodies: has_bodies(arms) }
}

/// Going on where polling left off, up to the last arm.
pub open spec fn take_up_polling(n: usize) -> Seq<Piece> {
    seq![
        Code("let"),
        Id(Name::FirstArm),
        Code("="),
        Id(Name::NextArm),
        Code(";"),
        Id(Name::NextArm),
        Code("="),
        Number(n),
        Code(";"),
    ]
}

/// Waiting, when every arm has been polled and nothing has come up that could be done.
pub open spec fn wait_part(n: usize, bodies: bool) -> Seq<Piece> {
    if bodies {
        seq![
            Code("); } else if"),
            Id(Name::NextArm),
            Code("=="),
            Number(n),
            Code("{ if !"),
            Id(Name::ItemConsumedFromLiveStream),
            Code("{ ::join_me_maybe::_impl::yield_once().await; }"),
            Id(Name::NextArm),
            Code("= 0usize;"),
            Id(Name::ItemConsumedFromLiveStream),
            Code("= false; } } }"),
        ]
    } else {
        seq![
            Code("); } else if !"),
            Id(Name::ItemConsumedFromLiveStream),
            Code("{ ::join_me_maybe::_impl::yield_once().await; } } }"),
        ]
    }
}

/// Everything that stands before the loop: the flags, the futures and streams, and the bodies.
pub open spec fn beginning(arms: Seq<JoinMeMaybeArm>, outline: Outline) -> Seq<Piece> {
    seq![
        Code("{ let"),
        Id(Name::DefinitelyFinishedCount),
        Code("= ::core::sync::atomic::AtomicUsize::new(0);"),
    ] + all_parts(Part::Canceller, arms, outline) + all_parts(Part::Scrutinee, arms, outline) + (
    if outline.bodies {
        run_body_items(arms, outline)
    } else {
        seq![]
    })
}

/// The first half of the loop: polling the arms, dropping what is cancelled, and running bodies.
pub open spec fn one_pass(arms: Seq<JoinMeMaybeArm>, outline: Outline) -> Seq<Piece> {
    seq![Code("loop {")] + (if outline.bodies {
        take_up_polling(arms.len() as usize)
    } else {
        seq![]
    }) + seq![Code("if !")] + definitely_finished(outline.total) + seq![Code("{ loop {")]
        + all_parts(Part::Poll, arms, outline) + seq![Code("break; } }")] + drop_cancelled(
        arms,
        outline,
    ) + (if outline.bodies {
        run_and_sweep(arms, outline)
    } else {
        seq![Code("let mut"), Id(Name::ItemConsumedFromLiveStream), Code("= false;")]
    })
}

/// The second half of the loop: returning the values, or waiting.
pub open spec fn end_or_wait(arms: Seq<JoinMeMaybeArm>, outline: Outline) -> Seq<Piece> {
    seq![Code("if")] + definitely_finished(outline.total) + (if outline.bodies {
        seq![Code("&&"), Id(Name::RunBodyFuture), Code(".is_none()")]
    } else {
        seq![]
    }) + seq![Code("{")] + (if outline.bodies {
        drop_body() + seq![Code("drop("), Id(Name::RunBodyFn), Code(");")]
    } else {
        seq![]
    }) + seq![Code("break (")] + all_parts(Part::Return, arms, outline) + wait_part(
        arms.len() as usize,
        outline.bodies,
    )
}

/// The expansion of a join.
pub open spec fn expansion(arms: Seq<JoinMeMaybeArm>) -> Seq<Piece> {
    let outline = outline(arms);
    beginning(arms, outline) + one_pass(arms, outline) + end_or_wait(arms, outline)
}

} // verus!
