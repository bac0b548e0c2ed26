//! Writing out the expansion.

use vstd::prelude::*;

use crate::expansion::Piece::{Code, Id, Input, Number, Tree};
use crate::expansion::{self, Name, Outline, Part, Piece};
use crate::shape::{ArmShape, Bump, Kind};
use crate::syntax::{ArmKind, JoinMeMaybe, JoinMeMaybeArm, Region};

verus! {

fn put(out: &mut Vec<Piece>, more: Vec<Piece>)
    ensures
        final(out)@ == old(out)@ + more@,
{
    let mut more = more;
    out.append(&mut more);
}

fn label(arm: &JoinMeMaybeArm) -> (piece: Piece)
    requires
        arm.cancel_label is Some,
    ensures
        piece == expansion::label(*arm),
{
    match arm.cancel_label {
        Some(at) => Tree(at),
        None => Code(""),
    }
}

fn scrutinee(kind: &ArmKind) -> (region: Region)
    ensures
        region == expansion::scrutinee(*kind),
{
    match kind {
        ArmKind::FutureOnly { future } => *future,
        ArmKind::FutureAndBody { future, .. } => *future,
        ArmKind::StreamAndBody { stream, .. } => *stream,
    }
}

fn definitely_finished(total: usize) -> (out: Vec<Piece>)
    ensures
        out@ == expansion::definitely_finished(total),
{
    vec![
        Code("("),
        Id(Name::DefinitelyFinishedCount),
        Code(".load(::core::sync::atomic::Ordering::Relaxed) =="),
        Number(total),
        Code(")"),
    ]
}

fn cancelled(i: usize) -> (out: Vec<Piece>)
    ensures
        out@ == expansion::cancelled(i),
{
    vec![Id(Name::Cancelled(i)), Code(".load(::core::sync::atomic::Ordering::Relaxed)")]
}

fn drop_body() -> (out: Vec<Piece>)
    ensures
        out@ == expansion::drop_body(),
{
    vec![
        Id(Name::RunBodyFuture),
        Code("= None; drop("),
        Id(Name::RunBodyFuture),
        Code(");"),
    ]
}

fn canceller_part(arm: &JoinMeMaybeArm, i: usize) -> (out: Vec<Piece>)
    ensures
        out@ == expansion::canceller_part(*arm, i),
{
    if arm.cancel_label.is_none() {
        vec![]
    } else if arm.is_maybe {
        vec![
            Code("let"),
            Id(Name::Cancelled(i)),
            Code("= ::core::sync::atomic::AtomicBool::new(false); #[allow(unused_variables)] let"),
            label(arm),
            Code("= &::join_me_maybe::_impl::new_canceller(&"),
            Id(Name::Cancelled(i)),
            Code(", None, &"),
            Id(Name::DefinitelyFinishedCount),
            Code(",);"),
        ]
    } else {
        vec![
            Code("let"),
            Id(Name::Cancelled(i)),
            Code("= ::core::sync::atomic::AtomicBool::new(false); let"),
            Id(Name::Finished(i)),
            Code("= ::core::sync::atomic::AtomicBool::new(false); #[allow(unused_variables)] let"),
            label(arm),
            Code("= &::join_me_maybe::_impl::new_canceller(&"),
            Id(Name::Cancelled(i)),
            Code(", ::core::option::Option::Some(&"),
            Id(Name::Finished(i)),
            Code("), &"),
            Id(Name::DefinitelyFinishedCount),
            Code(",);"),
        ]
    }
}

fn pinned(arm: &JoinMeMaybeArm, i: usize) -> (out: Vec<Piece>)
    ensures
        out@ == expansion::pinned(*arm, i),
{
    if arm.cancel_label.is_some() {
        vec![
            Code("let"),
            Id(Name::Arm(i)),
            Code("= ::core::pin::pin!(::core::option::Option::Some("),
            Input(scrutinee(&arm.kind)),
            Code(")); let"),
            Id(Name::Arm(i)),
            Code("= ::join_me_maybe::_impl::AtomicRefCell::new("),
            Id(Name::Arm(i)),
            Code(");"),
        ]
    } else {
        vec![
            Code("let mut"),
            Id(Name::Arm(i)),
            Code("= ::core::pin::pin!(::core::option::Option::Some("),
            Input(scrutinee(&arm.kind)),
            Code("));"),
        ]
    }
}

fn empty_variable(name: Name) -> (out: Vec<Piece>)
    ensures
        out@ == expansion::empty_variable(name),
{
    vec![Code("let mut"), Id(name), Code("= ::core::option::Option::None;")]
}

fn variables(kind: Kind, i: usize) -> (out: Vec<Piece>)
    ensures
        out@ == expansion::variables(kind, i),
{
    match kind {
        Kind::Future => empty_variable(Name::ArmOutput(i)),
        Kind::FutureBody => {
            let mut out = empty_variable(Name::ArmItem(i));
            put(&mut out, empty_variable(Name::ArmOutput(i)));
            out
        },
        Kind::Stream => empty_variable(Name::ArmItem(i)),
        Kind::StreamFinally => {
            let mut out = empty_variable(Name::ArmItem(i));
            put(
                &mut out,
                vec![
                    Code("let mut"),
                    Id(Name::ShouldRunFinally(i)),
                    Code("= false;"),
                ],
            );
            put(&mut out, empty_variable(Name::ArmOutput(i)));
            out
        },
    }
}

fn variant_part(kind: Kind, i: usize) -> (out: Vec<Piece>)
    ensures
        out@ == expansion::variant_part(kind, i),
{
    match kind {
        Kind::Future => vec![],
        Kind::StreamFinally => vec![
            Id(Name::Variant(i)),
            Code("("),
            Id(Name::TypeParam(i)),
            Code("),"),
            Id(Name::FinallyVariant(i)),
            Code(","),
        ],
        _ => vec![Id(Name::Variant(i)), Code("("), Id(Name::TypeParam(i)), Code("),")],
    }
}

fn value_of_body(body: Region, i: usize) -> (out: Vec<Piece>)
    ensures
        out@ == expansion::value_of_body(body, i),
{
    vec![
        Code("=> { let"),
        Id(Name::OutputTemporary),
        Code("= {"),
        Input(body),
        Code("}; #[allow(unreachable_code)] {"),
        Id(Name::ArmOutput(i)),
        Code("= ::core::option::Option::Some("),
        Id(Name::OutputTemporary),
        Code("); } }"),
    ]
}

fn body_part(kind: &ArmKind, i: usize) -> (out: Vec<Piece>)
    ensures
        out@ == expansion::body_part(*kind, i),
{
    match *kind {
        ArmKind::FutureOnly { .. } => vec![],
        ArmKind::FutureAndBody { pattern, body, .. } => {
            let mut out = vec![
                Id(Name::PrivateModule),
                Code("::ArmsInput::"),
                Id(Name::Variant(i)),
                Code("("),
                Input(pattern),
                Code(")"),
            ];
            put(&mut out, value_of_body(body, i));
            out
        },
        ArmKind::StreamAndBody { pattern, body, finally, .. } => {
            let mut out = vec![
                Id(Name::PrivateModule),
                Code("::ArmsInput::"),
                Id(Name::Variant(i)),
                Code("("),
                Input(pattern),
                Code(") => { let _: () ="),
                Input(body),
                Code("; }"),
            ];
            if let Some(finally) = finally {
                put(
                    &mut out,
                    vec![
                        Id(Name::PrivateModule),
                        Code("::ArmsInput::"),
                        Id(Name::FinallyVariant(i)),
                    ],
                );
                put(&mut out, value_of_body(finally, i));
            }
            out
        },
    }
}

fn canceller_mut_part(arm: &JoinMeMaybeArm, i: usize) -> (out: Vec<Piece>)
    ensures
        out@ == expansion::canceller_mut_part(*arm, i),
{
    if arm.cancel_label.is_none() {
        vec![]
    } else if arm.is_maybe {
        vec![
            Code("#[allow(unused_variables)] let"),
            label(arm),
            Code("= &::join_me_maybe::_impl::new_canceller_mut(&"),
            Id(Name::Cancelled(i)),
            Code(", None, &"),
            Id(Name::DefinitelyFinishedCount),
            Code(", &"),
            Id(Name::Arm(i)),
            Code(",);"),
        ]
    } else {
        vec![
            Code("#[allow(unused_variables)] let"),
            label(arm),
            Code("= &::join_me_maybe::_impl::new_canceller_mut(&"),
            Id(Name::Cancelled(i)),
            Code(", ::core::option::Option::Some(&"),
            Id(Name::Finished(i)),
            Code("), &"),
            Id(Name::DefinitelyFinishedCount),
            Code(", &"),
            Id(Name::Arm(i)),
            Code(",);"),
        ]
    }
}

fn polled(shape: ArmShape) -> (name: Name)
    ensures
        name == expansion::polled(shape),
{
    if shape.is_stream() {
        Name::Stream
    } else {
        Name::Future
    }
}

fn poll_future(sink: Name) -> (out: Vec<Piece>)
    ensures
        out@ == expansion::poll_future(sink),
{
    vec![
        Code("match ::join_me_maybe::_impl::PollOnce("),
        Id(Name::Future),
        Code(").await { ::core::task::Poll::Ready(output) => {"),
        Id(sink),
        Code(
            "= ::core::option::Option::Some(output); true } ::core::task::Poll::Pending => false, }",
        ),
    ]
}

fn poll_stream(finally: bool, i: usize) -> (out: Vec<Piece>)
    ensures
        out@ == expansion::poll_stream(finally, i),
{
    let mut out = vec![
        Code("if"),
        Id(Name::ArmItem(i)),
        Code(".is_some() { false } else { match ::join_me_maybe::_impl::PollNextOnce("),
        Id(Name::Stream),
        Code(
            ").await { ::core::task::Poll::Ready(::core::option::Option::Some(item)) => {",
        ),
        Id(Name::ArmItem(i)),
        Code(
            "= ::core::option::Option::Some(item); false } ::core::task::Poll::Ready(None) => {",
        ),
    ];
    if finally {
        put(&mut out, vec![Id(Name::ShouldRunFinally(i)), Code("= true;")]);
    }
    put(&mut out, vec![Code("true } ::core::task::Poll::Pending => false, } }")]);
    out
}

fn poll_is_ready(shape: ArmShape, i: usize) -> (out: Vec<Piece>)
    ensures
        out@ == expansion::poll_is_ready(shape, i),
{
    match shape.kind {
        Kind::Future => poll_future(Name::ArmOutput(i)),
        Kind::FutureBody => poll_future(Name::ArmItem(i)),
        Kind::Stream => poll_stream(false, i),
        Kind::StreamFinally => poll_stream(true, i),
    }
}

fn bump_count(bump: Bump, i: usize) -> (out: Vec<Piece>)
    ensures
        out@ == expansion::bump_count(bump, i),
{
    match bump {
        Bump::Never => vec![],
        Bump::Always => vec![
            Id(Name::DefinitelyFinishedCount),
            Code(".fetch_add(1, ::core::sync::atomic::Ordering::Relaxed);"),
        ],
        Bump::Once => vec![
            Code("let already_finished ="),
            Id(Name::Finished(i)),
            Code(".swap(true, ::core::sync::atomic::Ordering::Relaxed); if !already_finished {"),
            Id(Name::DefinitelyFinishedCount),
            Code(".fetch_add(1, ::core::sync::atomic::Ordering::Relaxed); }"),
        ],
    }
}

fn check_definitely_finished(total: usize) -> (out: Vec<Piece>)
    ensures
        out@ == expansion::check_definitely_finished(total),
{
    let mut out = vec![Code("if")];
    put(&mut out, definitely_finished(total));
    put(&mut out, vec![Code("{ break; }")]);
    out
}

fn leave_for_body(shape: ArmShape, i: usize) -> (out: Vec<Piece>)
    ensures
        out@ == expansion::leave_for_body(shape, i),
{
    if shape.has_body() {
        let mut out = vec![
            Code("if"),
            Id(Name::RunBodyFuture),
            Code(".is_none() && ("),
            Id(Name::ArmItem(i)),
            Code(".is_some()"),
        ];
        if shape.has_finally() {
            put(&mut out, vec![Code("||"), Id(Name::ShouldRunFinally(i))]);
        }
        put(&mut out, vec![Code(") {"), Id(Name::NextArm), Code("="), Number(i), Code("+ 1; break; }")]);
        out
    } else {
        vec![]
    }
}

fn poll_and_count(shape: ArmShape, i: usize, total: usize) -> (out: Vec<Piece>)
    ensures
        out@ == expansion::poll_and_count(shape, i, total),
{
    if shape.labeled {
        let mut out = vec![Code("if !")];
        put(&mut out, cancelled(i));
        put(
            &mut out,
            vec![
                Code("{ let mut guard ="),
                Id(Name::Arm(i)),
                Code(".borrow_mut(); let is_ready = if let ::core::option::Option::Some("),
                Id(polled(shape)),
                Code(") = guard.as_mut().as_pin_mut() {"),
            ],
        );
        put(&mut out, poll_is_ready(shape, i));
        put(
            &mut out,
            vec![
                Code(
                    "} else { false }; if is_ready { guard.set(::core::option::Option::None);",
                ),
            ],
        );
        put(&mut out, bump_count(shape.bump(), i));
        put(&mut out, vec![Code("}")]);
        put(&mut out, check_definitely_finished(total));
        put(&mut out, vec![Code("}")]);
        out
    } else {
        let mut out = vec![
            Code("let is_ready = if let ::core::option::Option::Some("),
            Id(polled(shape)),
            Code(") ="),
            Id(Name::Arm(i)),
            Code(".as_mut().as_pin_mut() {"),
        ];
        put(&mut out, poll_is_ready(shape, i));
        put(
            &mut out,
            vec![
                Code("} else { false }; if is_ready {"),
                Id(Name::Arm(i)),
                Code(".set(::core::option::Option::None);"),
            ],
        );
        put(&mut out, bump_count(shape.bump(), i));
        put(&mut out, vec![Code("}")]);
        put(&mut out, check_definitely_finished(total));
        out
    }
}

fn poll_part(shape: ArmShape, i: usize, outline: Outline) -> (out: Vec<Piece>)
    ensures
        out@ == expansion::poll_part(shape, i, outline),
{
    if outline.bodies {
        let mut out = vec![Code("if"), Id(Name::FirstArm), Code("<="), Number(i), Code("{")];
        put(&mut out, poll_and_count(shape, i, outline.total));
        put(&mut out, leave_for_body(shape, i));
        put(&mut out, vec![Code("}")]);
        out
    } else {
        poll_and_count(shape, i, outline.total)
    }
}

fn drop_arm(shape: ArmShape, i: usize) -> (out: Vec<Piece>)
    ensures
        out@ == expansion::drop_arm(shape, i),
{
    let mut out = if shape.labeled {
        vec![
            Id(Name::Arm(i)),
            Code(".borrow_mut().set(::core::option::Option::None);"),
        ]
    } else {
        vec![Id(Name::Arm(i)), Code(".set(::core::option::Option::None);")]
    };
    if shape.has_body() {
        put(&mut out, vec![Id(Name::ArmItem(i)), Code("= None;")]);
    }
    out
}

fn drop_labeled_part(shape: ArmShape, i: usize) -> (out: Vec<Piece>)
    ensures
        out@ == expansion::drop_labeled_part(shape, i),
{
    if shape.labeled {
        let mut out = vec![Code("if")];
        put(&mut out, cancelled(i));
        put(&mut out, vec![Code("{")]);
        put(&mut out, drop_arm(shape, i));
        put(&mut out, vec![Code("}")]);
        out
    } else {
        vec![]
    }
}

fn set_body_flags(shape: ArmShape, i: usize) -> (out: Vec<Piece>)
    ensures
        out@ == expansion::set_body_flags(shape, i),
{
    let mut out = vec![
        Id(Name::BodyIsMaybe),
        Code("="),
        Code(if shape.is_maybe { "true" } else { "false" }),
        Code(";"),
        Id(Name::BodyCancelledFlag),
        Code("="),
    ];
    if shape.labeled {
        put(&mut out, vec![Code("::core::option::Option::Some(&"), Id(Name::Cancelled(i)), Code(")")]);
    } else {
        put(&mut out, vec![Code("None")]);
    }
    put(&mut out, vec![Code("; continue;")]);
    out
}

fn is_live(shape: ArmShape, i: usize) -> (out: Vec<Piece>)
    ensures
        out@ == expansion::is_live(shape, i),
{
    if shape.labeled {
        if shape.is_maybe {
            vec![Id(Name::Arm(i)), Code(".borrow().is_some()")]
        } else {
            vec![
                Code("!"),
                Id(Name::Finished(i)),
                Code(".load(::core::sync::atomic::Ordering::Relaxed)"),
            ]
        }
    } else {
        vec![Id(Name::Arm(i)), Code(".is_some()")]
    }
}

fn start_body(i: usize) -> (out: Vec<Piece>)
    ensures
        out@ == expansion::start_body(i),
{
    let mut out = vec![
        Code("if let ::core::option::Option::Some(item) ="),
        Id(Name::ArmItem(i)),
        Code(".take() {"),
    ];
    put(&mut out, drop_body());
    put(
        &mut out,
        vec![
            Id(Name::RunBodyFuture),
            Code("= ::core::option::Option::Some("),
            Id(Name::RunBodyFn),
            Code("("),
            Id(Name::PrivateModule),
            Code("::ArmsInput::"),
            Id(Name::Variant(i)),
            Code("(item)));"),
        ],
    );
    out
}

fn start_finally(shape: ArmShape, i: usize) -> (out: Vec<Piece>)
    ensures
        out@ == expansion::start_finally(shape, i),
{
    let mut out = vec![Code("if"), Id(Name::ShouldRunFinally(i)), Code("{")];
    put(&mut out, drop_body());
    put(
        &mut out,
        vec![
            Id(Name::RunBodyFuture),
            Code("= ::core::option::Option::Some("),
            Id(Name::RunBodyFn),
            Code("("),
            Id(Name::PrivateModule),
            Code("::ArmsInput::"),
            Id(Name::FinallyVariant(i)),
            Code("));"),
            Id(Name::ShouldRunFinally(i)),
            Code("= false;"),
        ],
    );
    put(&mut out, set_body_flags(shape, i));
    put(&mut out, vec![Code("}")]);
    out
}

fn try_body_part(shape: ArmShape, i: usize) -> (out: Vec<Piece>)
    ensures
        out@ == expansion::try_body_part(shape, i),
{
    match shape.kind {
        Kind::Future => vec![],
        Kind::FutureBody => {
            let mut out = start_body(i);
            put(&mut out, set_body_flags(shape, i));
            put(&mut out, vec![Code("}")]);
            out
        },
        _ => {
            let mut out = start_body(i);
            put(&mut out, vec![Code("if")]);
            put(&mut out, is_live(shape, i));
            put(
                &mut out,
                vec![
                    Code("{"),
                    Id(Name::ItemConsumedFromLiveStream),
                    Code("= true; }"),
                ],
            );
            put(&mut out, set_body_flags(shape, i));
            put(&mut out, vec![Code("}")]);
            if shape.has_finally() {
                put(&mut out, start_finally(shape, i));
            }
            out
        },
    }
}

fn return_part(shape: ArmShape, i: usize) -> (out: Vec<Piece>)
    ensures
        out@ == expansion::return_part(shape, i),
{
    if !shape.has_value() {
        vec![Code("(),")]
    } else if shape.cancellable() {
        vec![Id(Name::ArmOutput(i)), Code(".take(),")]
    } else {
        vec![
            Id(Name::ArmOutput(i)),
            Code(".take().expect(\"this arm can't be cancelled\"),"),
        ]
    }
}

fn part(which: Part, arm: &JoinMeMaybeArm, i: usize, outline: Outline) -> (out: Vec<Piece>)
    ensures
        out@ == expansion::part(which, *arm, i, outline),
{
    let shape = arm.shape();
    match which {
        Part::Canceller => canceller_part(arm, i),
        Part::Scrutinee => {
            let mut out = pinned(arm, i);
            put(&mut out, variables(shape.kind, i));
            out
        },
        Part::TypeParam => if shape.has_body() {
            vec![Id(Name::TypeParam(i)), Code(",")]
        } else {
            vec![]
        },
        Part::Variant => variant_part(shape.kind, i),
        Part::BodyArm => body_part(&arm.kind, i),
        Part::CancellerMut => canceller_mut_part(arm, i),
        Part::Poll => poll_part(shape, i, outline),
        Part::DropMaybe => if shape.is_maybe {
            drop_arm(shape, i)
        } else {
            vec![]
        },
        Part::DropLabeled => drop_labeled_part(shape, i),
        Part::TryBody => try_body_part(shape, i),
        Part::Return => return_part(shape, i),
    }
}

fn all_parts(which: Part, arms: &Vec<JoinMeMaybeArm>, outline: Outline) -> (out: Vec<Piece>)
    ensures
        out@ == expansion::all_parts(which, arms@, outline),
{
    let mut out: Vec<Piece> = Vec::new();
    for i in 0..arms.len()
        invariant
            out@ == expansion::parts(which, arms@, i as nat, outline),
    {
        put(&mut out, part(which, &arms[i], i, outline));
    }
    out
}

fn drop_cancelled(arms: &Vec<JoinMeMaybeArm>, outline: Outline) -> (out: Vec<Piece>)
    ensures
        out@ == expansion::drop_cancelled(arms@, outline),
{
    let mut out = vec![Code("if")];
    put(&mut out, definitely_finished(outline.total));
    put(&mut out, vec![Code("{")]);
    put(&mut out, all_parts(Part::DropMaybe, arms, outline));
    put(&mut out, vec![Code("}")]);
    put(&mut out, all_parts(Part::DropLabeled, arms, outline));
    out
}

fn run_body_items(arms: &Vec<JoinMeMaybeArm>, outline: Outline) -> (out: Vec<Piece>)
    ensures
        out@ == expansion::run_body_items(arms@, outline),
{
    let mut out = vec![
        Code("mod"),
        Id(Name::PrivateModule),
        Code("{ pub enum ArmsInput<"),
    ];
    put(&mut out, all_parts(Part::TypeParam, arms, outline));
    put(&mut out, vec![Code("> {")]);
    put(&mut out, all_parts(Part::Variant, arms, outline));
    put(&mut out, vec![Code("} }")]);
    put(&mut out, all_parts(Part::CancellerMut, arms, outline));
    put(
        &mut out,
        vec![
            Code("let"),
            Id(Name::RunBodyNoReturn),
            Code("= ::core::sync::atomic::AtomicBool::new(false); let mut"),
            Id(Name::RunBodyFn),
            Code("= async |"),
            Id(Name::Item),
            Code("| { match"),
            Id(Name::Item),
            Code("{"),
        ],
    );
    put(&mut out, all_parts(Part::BodyArm, arms, outline));
    put(
        &mut out,
        vec![
            Code("} #[allow(unreachable_code)] {"),
            Id(Name::RunBodyNoReturn),
            Code(
                ".store(true, ::core::sync::atomic::Ordering::Relaxed); ::core::future::pending().await } }; let mut",
            ),
            Id(Name::RunBodyFuture),
            Code("= ::core::option::Option::None; let mut"),
            Id(Name::BodyIsMaybe),
            Code("= false; let mut"),
            Id(Name::BodyCancelledFlag),
            Code(
                ": ::core::option::Option<&::core::sync::atomic::AtomicBool> = ::core::option::Option::None; let mut",
            ),
            Id(Name::NextArm),
            Code("= 0usize; let mut"),
            Id(Name::ItemConsumedFromLiveStream),
            Code("= false;"),
        ],
    );
    out
}

fn body_is_cancelled(total: usize) -> (out: Vec<Piece>)
    ensures
        out@ == expansion::body_is_cancelled(total),
{
    let mut out = vec![Code("(("), Id(Name::BodyIsMaybe), Code("&&")];
    put(&mut out, definitely_finished(total));
    put(
        &mut out,
        vec![
            Code(") ||"),
            Id(Name::BodyCancelledFlag),
            Code(".is_some_and(|flag| flag.load(::core::sync::atomic::Ordering::Relaxed)))"),
        ],
    );
    out
}

fn run_bodies_loop(arms: &Vec<JoinMeMaybeArm>, outline: Outline) -> (out: Vec<Piece>)
    ensures
        out@ == expansion::run_bodies_loop(arms@, outline),
{
    let mut out = vec![Code("loop { if"), Id(Name::RunBodyFuture), Code(".is_some() &&")];
    put(&mut out, body_is_cancelled(outline.total));
    put(&mut out, vec![Code("{")]);
    put(&mut out, drop_body());
    put(
        &mut out,
        vec![
            Id(Name::RunBodyFuture),
            Code("= None; } if let ::core::option::Option::Some(future) ="),
            Id(Name::RunBodyFuture),
            Code(
                ".as_mut() { let poll = ::join_me_maybe::_impl::PollOnce(unsafe { ::core::pin::Pin::new_unchecked(future) }).await; if let ::core::task::Poll::Ready(output) = poll { return output; } else if",
            ),
            Id(Name::RunBodyNoReturn),
            Code(".load(::core::sync::atomic::Ordering::Relaxed) {"),
            Id(Name::RunBodyNoReturn),
            Code(".store(false, ::core::sync::atomic::Ordering::Relaxed); } else if"),
        ],
    );
    put(&mut out, body_is_cancelled(outline.total));
    put(&mut out, vec![Code("{ } else { break; } }")]);
    put(&mut out, drop_body());
    put(
        &mut out,
        vec![
            Id(Name::RunBodyFuture),
            Code("= None;"),
        ],
    );
    put(&mut out, all_parts(Part::TryBody, arms, outline));
    put(
        &mut out,
        vec![
            Code("if"),
            Id(Name::RunBodyFuture),
            Code(".is_none() { break; } }"),
        ],
    );
    out
}

fn run_and_sweep(arms: &Vec<JoinMeMaybeArm>, outline: Outline) -> (out: Vec<Piece>)
    ensures
        out@ == expansion::run_and_sweep(arms@, outline),
{
    let mut out = vec![Code("loop {")];
    put(&mut out, run_bodies_loop(arms, outline));
    put(&mut out, drop_cancelled(arms, outline));
    put(
        &mut out,
        vec![
            Code("if !("),
            Id(Name::RunBodyFuture),
            Code(".is_some() &&"),
        ],
    );
    put(&mut out, body_is_cancelled(outline.total));
    put(&mut out, vec![Code(") { break; } }")]);
    out
}

fn take_up_polling(n: usize) -> (out: Vec<Piece>)
    ensures
        out@ == expansion::take_up_polling(n),
{
    vec![
        Code("let"),
        Id(Name::FirstArm),
        Code("="),
        Id(Name::NextArm),
        Code(";"),
        Id(Name::NextArm),
        Code("="),
        Number(n),
        Code(";"),
    ]
}

fn wait_part(n: usize, bodies: bool) -> (out: Vec<Piece>)
    ensures
        out@ == expansion::wait_part(n, bodies),
{
    if bodies {
        vec![
            Code("); } else if"),
            Id(Name::NextArm),
            Code("=="),
            Number(n),
            Code("{ if !"),
            Id(Name::ItemConsumedFromLiveStream),
            Code("{ ::join_me_maybe::_impl::yield_once().await; }"),
            Id(Name::NextArm),
            Code("= 0usize;"),
            Id(Name::ItemConsumedFromLiveStream),
            Code("= false; } } }"),
        ]
    } else {
        vec![
            Code("); } else if !"),
            Id(Name::ItemConsumedFromLiveStream),
            Code("{ ::join_me_maybe::_impl::yield_once().await; } } }"),
        ]
    }
}

fn beginning(arms: &Vec<JoinMeMaybeArm>, outline: Outline) -> (out: Vec<Piece>)
    ensures
        out@ == expansion::beginning(arms@, outline),
{
    let mut out = vec![
        Code("{ let"),
        Id(Name::DefinitelyFinishedCount),
        Code("= ::core::sync::atomic::AtomicUsize::new(0);"),
    ];
    put(&mut out, all_parts(Part::Canceller, arms, outline));
    put(&mut out, all_parts(Part::Scrutinee, arms, outline));
    if outline.bodies {
        put(&mut out, run_body_items(arms, outline));
    }
    out
}

fn one_pass(arms: &Vec<JoinMeMaybeArm>, outline: Outline) -> (out: Vec<Piece>)
    ensures
        out@ == expansion::one_pass(arms@, outline),
{
    let mut out = vec![Code("loop {")];
    if outline.bodies {
        put(&mut out, take_up_polling(arms.len()));
    }
    put(&mut out, vec![Code("if !")]);
    put(&mut out, definitely_finished(outline.total));
    put(&mut out, vec![Code("{ loop {")]);
    put(&mut out, all_parts(Part::Poll, arms, outline));
    put(&mut out, vec![Code("break; } }")]);
    put(&mut out, drop_cancelled(arms, outline));
    if outline.bodies {
        put(&mut out, run_and_sweep(arms, outline));
    } else {
        put(&mut out, vec![Code("let mut"), Id(Name::ItemConsumedFromLiveStream), Code("= false;")]);
    }
    out
}

fn end_or_wait(arms: &Vec<JoinMeMaybeArm>, outline: Outline) -> (out: Vec<Piece>)
    ensures
        out@ == expansion::end_or_wait(arms@, outline),
{
    let mut out = vec![Code("if")];
    put(&mut out, definitely_finished(outline.total));
    if outline.bodies {
        put(&mut out, vec![Code("&&"), Id(Name::RunBodyFuture), Code(".is_none()")]);
    }
    put(&mut out, vec![Code("{")]);
    if outline.bodies {
        put(&mut out, drop_body());
        put(&mut out, vec![Code("drop("), Id(Name::RunBodyFn), Code(");")]);
    }
    put(&mut out, vec![Code("break (")]);
    put(&mut out, all_parts(Part::Return, arms, outline));
    put(&mut out, wait_part(arms.len(), outline.bodies));
    out
}

impl JoinMeMaybe {
    fn total_definitely(&self) -> (total: usize)
        ensures
            total == expansion::total_definitely(self.arms@),
    {
        let mut total: usize = 0;
        for i in 0..self.arms.len()
            invariant
                total == expansion::total_definitely(self.arms@.take(i as int)),
                total <= i,
        {
            if !self.arms[i].is_maybe {
                total = total + 1;
            }
            proof {
                assert(self.arms@.take(i + 1).drop_last() =~= self.arms@.take(i as int));
            }
        }
        proof {
            assert(self.arms@.take(self.arms@.len() as int) =~= self.arms@);
        }
        total
    }

    fn has_bodies(&self) -> (yes: bool)
        ensures
            yes == expansion::has_bodies(self.arms@),
    {
        for i in 0..self.arms.len()
            invariant
                forall|k: int|
                    0 <= k < i ==> !(#[trigger] self.arms@[k]).spec_shape().spec_has_body(),
        {
            if self.arms[i].shape().has_body() {
                return true;
            }
        }
        false
    }

    /// What the join expands to.
    pub fn to_tokens(&self) -> (out: Vec<Piece>)
        ensures
            out@ == expansion::expansion(self.arms@),
    {
        let outline = Outline { total: self.total_definitely(), bodies: self.has_bodies() };
        let mut out = beginning(&self.arms, outline);
        put(&mut out, one_pass(&self.arms, outline));
        put(&mut out, end_or_wait(&self.arms, outline));
        out
    }
}

} // verus!
