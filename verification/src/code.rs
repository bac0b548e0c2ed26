//! The part of Rust that expansions are written in: its syntax trees, and how each is spelled.

use vstd::prelude::*;

use crate::expansion::Name;
use crate::syntax::Region;
use crate::words::{Word, Words};
use crate::words;

verus! {

/// A condition.
pub enum Cond {
    /// `(name.load(Relaxed) == n)`
    CountIs(Name, usize),
    /// `name.load(Relaxed)`
    Flag(Name),
    /// `name`
    Var(Name),
    /// `is_ready`
    IsReady,
    /// `already_finished`
    AlreadyFinished,
    /// `name.is_some()`
    Filled(Name),
    /// `name.is_none()`
    Empty(Name),
    /// `name.borrow().is_some()`
    CellFilled(Name),
    /// `name.is_some_and(|flag| flag.load(Relaxed))`
    FlagOf(Name),
    /// `name <= n`
    AtMost(Name, usize),
    /// `name == n`
    Equals(Name, usize),
    /// `!c`
    Not(Box<Cond>),
    /// `c && d`
    And(Box<Cond>, Box<Cond>),
    /// `c || d`
    Or(Box<Cond>, Box<Cond>),
    /// `(c)`
    Paren(Box<Cond>),
}

/// What stands on the right of a `=`.
pub enum Value {
    /// `true` or `false`
    Bool(bool),
    /// `None`
    Nothing,
    /// `0usize`
    Zero,
    /// `n`
    Number(usize),
    /// `n + 1`
    NumberAfter(usize),
    /// `name`
    Copy(Name),
    /// `Some(output)`
    Output,
    /// `Some(item)`
    Item,
    /// `Some(&name)`
    FlagRef(Name),
    /// `Some(function(module::ArmsInput::variant(item)))`
    Run(Name, Name, Name),
    /// `Some(function(module::ArmsInput::variant))`
    RunFinally(Name, Name, Name),
    /// `AtomicBool::new(false)`
    NewFlag,
    /// `AtomicUsize::new(0)`
    NewCount,
}

/// What the canceller of an arm is made of: the cancelled flag, the finished flag, if it has one,
/// and the count.
pub struct Handle {
    pub cancelled: Name,
    pub finished: Option<Name>,
    pub count: Name,
}

/// A statement without statements in it.
pub enum Do {
    /// `name = value;`
    Assign(Name, Value),
    /// `let name = value;`
    Let(Name, Value),
    /// `let mut name = value;`
    LetMut(Name, Value),
    /// `let mut name: Option<&AtomicBool> = value;`
    LetMutFlagRef(Name, Value),
    /// `name.store(b, Relaxed);`
    Store(Name, bool),
    /// `name.fetch_add(1, Relaxed);`
    AddOne(Name),
    /// `let already_finished = name.swap(true, Relaxed);`
    Swap(Name),
    /// `drop(name);`
    Drop(Name),
    /// `name.set(None);`
    Clear(Name),
    /// `name.borrow_mut().set(None);`
    ClearCell(Name),
    /// `guard.set(None);`
    ClearGuard,
    /// `let mut guard = name.borrow_mut();`
    Lock(Name),
    /// `let name = pin!(Some(input));`, with or without `mut`
    Pin(Name, bool, Region),
    /// `let name = AtomicRefCell::new(name);`
    Cell(Name),
    /// `#[allow(unused_variables)] let label = &new_canceller(..);`
    Label(usize, Handle),
    /// `#[allow(unused_variables)] let label = &new_canceller_mut(.., &name,);`
    LabelMut(usize, Handle, Name),
    /// `let poll = PollOnce(..).await;`
    PollBody,
    /// `return output;`
    Return,
    /// `yield_once().await;`
    Yield,
    /// `break;`
    Break,
    /// `continue;`
    Continue,
}

/// A block that says whether an arm has finished.
pub enum Verdict {
    /// `true` or `false`
    Bool(bool),
    /// a statement, then the rest
    After(Do, Box<Verdict>),
    /// `if c { v } else { w }`
    IfElse(Cond, Box<Verdict>, Box<Verdict>),
    /// `match PollOnce(name).await { Poll::Ready(output) => { v } Poll::Pending => w, }`
    Future(Name, Box<Verdict>, Box<Verdict>),
    /// `match PollNextOnce(name).await { Poll::Ready(Some(item)) => { u } Poll::Ready(None) => { v }
    /// Poll::Pending => w, }`
    Stream(Name, Box<Verdict>, Box<Verdict>, Box<Verdict>),
}

/// Where the future or the stream that is to be polled is kept.
pub enum Place {
    /// In a variable.
    Var(Name),
    /// Behind `guard`.
    Guard,
}

/// The values that a join returns.
pub enum Returns {
    Nothing,
    /// `(),`
    Unit(Box<Returns>),
    /// `name.take(),`
    Take(Box<Returns>, Name),
    /// `name.take().expect(..),`
    Expect(Box<Returns>, Name),
}

/// The type parameters of the input of the bodies.
pub enum Params {
    Nothing,
    /// `name,`
    Param(Box<Params>, Name),
}

/// The variants of the input of the bodies.
pub enum Variants {
    Nothing,
    /// `variant(param),`
    Item(Box<Variants>, Name, Name),
    /// `variant,`
    Finally(Box<Variants>, Name),
}

/// One arm of the function that runs the bodies.
pub struct BodyArm {
    pub module: Name,
    pub variant: Name,
    /// What the item is matched with, if the variant has one.
    pub pattern: Option<Region>,
    pub body: Region,
    /// What holds the value of the body for a moment, and the variable that gets it.
    pub sink: Option<(Name, Name)>,
}

/// The arms of the function that runs the bodies.
pub enum BodyArms {
    Nothing,
    Arm(Box<BodyArms>, BodyArm),
}

/// A statement.
pub enum Stmt {
    Skip,
    /// a statement, then another
    Then(Box<Stmt>, Box<Stmt>),
    Simple(Do),
    /// `if c { s }`
    If(Cond, Box<Stmt>),
    /// `if c { s } else { t }`
    IfElse(Cond, Box<Stmt>, Box<Stmt>),
    /// `if c { s } else t`, where `t` is another `if`
    IfElseIf(Cond, Box<Stmt>, Box<Stmt>),
    /// `loop { s }`
    Loop(Box<Stmt>),
    /// `let is_ready = if let Some(name) = place.as_mut().as_pin_mut() { v } else { b };`
    LetReady(Place, Name, Verdict, bool),
    /// `if let Some(future) = name.as_mut() { s }`
    IfBody(Name, Box<Stmt>),
    /// `if let Poll::Ready(output) = poll { s } else t`, where `t` is another `if`
    IfReturned(Box<Stmt>, Box<Stmt>),
    /// `if let Some(item) = name.take() { s }`
    IfTaken(Name, Box<Stmt>),
    /// `break (..);`
    BreakWith(Returns),
    /// `mod name { pub enum ArmsInput<..> { .. } }`
    Module(Name, Params, Variants),
    /// `let mut function = async |param| { match param { .. } #[allow(unreachable_code)] {
    /// flag.store(b, Relaxed); pending().await } };`
    Function(Name, Name, BodyArms, Name, bool),
}

pub open spec fn bool_text(b: bool, rest: Words) -> Words {
    words::word(
        if b {
            Word::TrueWord
        } else {
            Word::FalseWord
        },
        rest,
    )
}

pub open spec fn id(name: Name, rest: Words) -> Words {
    words::word(Word::Id(name), rest)
}

/// `{ .. }`, where `rest` starts with what follows the brace.
pub open spec fn brace(rest: Words) -> Words {
    words::word(Word::BraceOpen, rest)
}

pub open spec fn close_brace(rest: Words) -> Words {
    words::word(Word::BraceClose, rest)
}

pub open spec fn semi(rest: Words) -> Words {
    words::word(Word::Semi, rest)
}

/// How a condition is spelled.
#[verifier::opaque]
pub open spec fn cond_text(cond: Cond, rest: Words) -> Words
    decreases cond,
{
    match cond {
        Cond::CountIs(name, n) => words::word(
            Word::Open,
            id(
                name,
                words::word(
                    Word::Load,
                    words::word(
                        Word::EqEq,
                        words::word(Word::Number(n), words::word(Word::Close, rest)),
                    ),
                ),
            ),
        ),
        Cond::Flag(name) => id(name, words::word(Word::Load, rest)),
        Cond::Var(name) => id(name, rest),
        Cond::IsReady => words::word(Word::IsReady, rest),
        Cond::AlreadyFinished => words::word(Word::AlreadyFinished, rest),
        Cond::Filled(name) => id(name, words::word(Word::IsSome, rest)),
        Cond::Empty(name) => id(name, words::word(Word::IsNone, rest)),
        Cond::CellFilled(name) => id(
            name,
            words::word(Word::Borrow, words::word(Word::IsSome, rest)),
        ),
        Cond::FlagOf(name) => id(name, words::word(Word::IsSomeAndLoad, rest)),
        Cond::AtMost(name, n) => id(
            name,
            words::word(Word::AtMostWord, words::word(Word::Number(n), rest)),
        ),
        Cond::Equals(name, n) => id(
            name,
            words::word(Word::EqEq, words::word(Word::Number(n), rest)),
        ),
        Cond::Not(c) => words::word(Word::Bang, cond_text(*c, rest)),
        Cond::And(c, d) => cond_text(*c, words::word(Word::AndAnd, cond_text(*d, rest))),
        Cond::Or(c, d) => cond_text(*c, words::word(Word::OrOr, cond_text(*d, rest))),
        Cond::Paren(c) => words::word(Word::Open, cond_text(*c, words::word(Word::Close, rest))),
    }
}

/// How what stands on the right of a `=` is spelled.
#[verifier::opaque]
pub open spec fn value_text(value: Value, rest: Words) -> Words {
    match value {
        Value::Bool(b) => bool_text(b, rest),
        Value::Nothing => words::word(Word::NoneWord, rest),
        Value::Zero => words::word(Word::Zero, rest),
        Value::Number(n) => words::word(Word::Number(n), rest),
        Value::NumberAfter(n) => words::word(
            Word::Number(n),
            words::word(Word::Plus, words::word(Word::One, rest)),
        ),
        Value::Copy(name) => id(name, rest),
        Value::Output => words::word(Word::SomeOutput, rest),
        Value::Item => words::word(Word::SomeItem, rest),
        Value::FlagRef(name) => words::word(
            Word::SomeOpen,
            words::word(Word::Amp, id(name, words::word(Word::Close, rest))),
        ),
        Value::Run(function, module, variant) => words::word(
            Word::SomeOpen,
            id(
                function,
                words::word(
                    Word::Open,
                    id(
                        module,
                        words::word(
                            Word::ArmsInput,
                            id(
                                variant,
                                words::word(
                                    Word::Open,
                                    words::word(
                                        Word::ItemWord,
                                        words::word(
                                            Word::Close,
                                            words::word(
                                                Word::Close,
                                                words::word(Word::Close, rest),
                                            ),
                                        ),
                                    ),
                                ),
                            ),
                        ),
                    ),
                ),
            ),
        ),
        Value::RunFinally(function, module, variant) => words::word(
            Word::SomeOpen,
            id(
                function,
                words::word(
                    Word::Open,
                    id(
                        module,
                        words::word(
                            Word::ArmsInput,
                            id(
                                variant,
                                words::word(Word::Close, words::word(Word::Close, rest)),
                            ),
                        ),
                    ),
                ),
            ),
        ),
        Value::NewFlag => words::word(Word::NewFalse, rest),
        Value::NewCount => words::word(Word::NewZero, rest),
    }
}

/// How the flags and the count that a canceller is made of are spelled.
pub open spec fn handle_text(handle: Handle, rest: Words) -> Words {
    words::word(
        Word::Amp,
        id(
            handle.cancelled,
            words::word(
                Word::Comma,
                match handle.finished {
                    Some(finished) => words::word(
                        Word::SomeOpen,
                        words::word(
                            Word::Amp,
                            id(
                                finished,
                                words::word(
                                    Word::Close,
                                    words::word(
                                        Word::Comma,
                                        words::word(Word::Amp, id(handle.count, rest)),
                                    ),
                                ),
                            ),
                        ),
                    ),
                    None => words::word(
                        Word::NoneWord,
                        words::word(Word::Comma, words::word(Word::Amp, id(handle.count, rest))),
                    ),
                },
            ),
        ),
    )
}

/// How a statement without statements in it is spelled.
#[verifier::opaque]
pub open spec fn do_text(step: Do, rest: Words) -> Words {
    match step {
        Do::Assign(name, value) => id(name, words::word(Word::Eq, value_text(value, semi(rest)))),
        Do::Let(name, value) => words::word(
            Word::LetWord,
            id(name, words::word(Word::Eq, value_text(value, semi(rest)))),
        ),
        Do::LetMut(name, value) => words::word(
            Word::LetWord,
            words::word(
                Word::MutWord,
                id(name, words::word(Word::Eq, value_text(value, semi(rest)))),
            ),
        ),
        Do::LetMutFlagRef(name, value) => words::word(
            Word::LetWord,
            words::word(
                Word::MutWord,
                id(
                    name,
                    words::word(
                        Word::Colon,
                        words::word(
                            Word::FlagType,
                            words::word(Word::Eq, value_text(value, semi(rest))),
                        ),
                    ),
                ),
            ),
        ),
        Do::Store(name, b) => id(
            name,
            words::word(
                if b {
                    Word::StoreTrue
                } else {
                    Word::StoreFalse
                },
                semi(rest),
            ),
        ),
        Do::AddOne(name) => id(name, words::word(Word::AddOne, semi(rest))),
        Do::Swap(name) => words::word(
            Word::LetWord,
            words::word(
                Word::AlreadyFinished,
                words::word(Word::Eq, id(name, words::word(Word::SwapTrue, semi(rest)))),
            ),
        ),
        Do::Drop(name) => words::word(
            Word::DropOpen,
            id(name, words::word(Word::Close, semi(rest))),
        ),
        Do::Clear(name) => id(name, words::word(Word::SetNone, semi(rest))),
        Do::ClearCell(name) => id(
            name,
            words::word(Word::BorrowMut, words::word(Word::SetNone, semi(rest))),
        ),
        Do::ClearGuard => words::word(Word::Guard, words::word(Word::SetNone, semi(rest))),
        Do::Lock(name) => words::word(
            Word::LetWord,
            words::word(
                Word::MutWord,
                words::word(
                    Word::Guard,
                    words::word(Word::Eq, id(name, words::word(Word::BorrowMut, semi(rest)))),
                ),
            ),
        ),
        Do::Pin(name, mutable, input) => {
            let pinned = id(
                name,
                words::word(
                    Word::Eq,
                    words::word(
                        Word::PinSome,
                        words::word(
                            Word::Input(input),
                            words::word(Word::Close, words::word(Word::Close, semi(rest))),
                        ),
                    ),
                ),
            );
            words::word(
                Word::LetWord,
                if mutable {
                    words::word(Word::MutWord, pinned)
                } else {
                    pinned
                },
            )
        },
        Do::Cell(name) => words::word(
            Word::LetWord,
            id(
                name,
                words::word(
                    Word::Eq,
                    words::word(Word::NewCell, id(name, words::word(Word::Close, semi(rest)))),
                ),
            ),
        ),
        Do::Label(tree, handle) => words::word(
            Word::AllowUnused,
            words::word(
                Word::LetWord,
                words::word(
                    Word::Tree(tree),
                    words::word(
                        Word::Eq,
                        words::word(
                            Word::Amp,
                            words::word(
                                Word::NewCanceller,
                                handle_text(
                                    handle,
                                    words::word(
                                        Word::Comma,
                                        words::word(Word::Close, semi(rest)),
                                    ),
                                ),
                            ),
                        ),
                    ),
                ),
            ),
        ),
        Do::LabelMut(tree, handle, arm) => words::word(
            Word::AllowUnused,
            words::word(
                Word::LetWord,
                words::word(
                    Word::Tree(tree),
                    words::word(
                        Word::Eq,
                        words::word(
                            Word::Amp,
                            words::word(
                                Word::NewCancellerMut,
                                handle_text(
                                    handle,
                                    words::word(
                                        Word::Comma,
                                        words::word(
                                            Word::Amp,
                                            id(
                                                arm,
                                                words::word(
                                                    Word::Comma,
                                                    words::word(Word::Close, semi(rest)),
                                                ),
                                            ),
                                        ),
                                    ),
                                ),
                            ),
                        ),
                    ),
                ),
            ),
        ),
        Do::PollBody => words::word(
            Word::LetWord,
            words::word(
                Word::PollWord,
                words::word(Word::Eq, words::word(Word::PollBody, semi(rest))),
            ),
        ),
        Do::Return => words::word(Word::ReturnWord, words::word(Word::OutputWord, semi(rest))),
        Do::Yield => words::word(Word::YieldOnce, semi(rest)),
        Do::Break => words::word(Word::BreakWord, semi(rest)),
        Do::Continue => words::word(Word::ContinueWord, semi(rest)),
    }
}

/// How a block that says whether an arm has finished is spelled.
#[verifier::opaque]
pub open spec fn verdict_text(verdict: Verdict, rest: Words) -> Words
    decreases verdict,
{
    match verdict {
        Verdict::Bool(b) => bool_text(b, rest),
        Verdict::After(step, v) => do_text(step, verdict_text(*v, rest)),
        Verdict::IfElse(c, v, w) => words::word(
            Word::IfWord,
            cond_text(
                c,
                brace(
                    verdict_text(
                        *v,
                        close_brace(
                            words::word(
                                Word::ElseWord,
                                brace(verdict_text(*w, close_brace(rest))),
                            ),
                        ),
                    ),
                ),
            ),
        ),
        Verdict::Future(name, ready, pending) => words::word(
            Word::MatchWord,
            words::word(
                Word::PollOnce,
                id(
                    name,
                    words::word(
                        Word::CloseAwait,
                        brace(
                            words::word(
                                Word::ReadyOutput,
                                words::word(
                                    Word::Arrow,
                                    brace(
                                        verdict_text(
                                            *ready,
                                            close_brace(
                                                words::word(
                                                    Word::Pending,
                                                    words::word(
                                                        Word::Arrow,
                                                        verdict_text(
                                                            *pending,
                                                            words::word(
                                                                Word::Comma,
                                                                close_brace(rest),
                                                            ),
                                                        ),
                                                    ),
                                                ),
                                            ),
                                        ),
                                    ),
                                ),
                            ),
                        ),
                    ),
                ),
            ),
        ),
        Verdict::Stream(name, item, end, pending) => words::word(
            Word::MatchWord,
            words::word(
                Word::PollNextOnce,
                id(
                    name,
                    words::word(
                        Word::CloseAwait,
                        brace(
                            words::word(
                                Word::ReadySomeItem,
                                words::word(
                                    Word::Arrow,
                                    brace(
                                        verdict_text(
                                            *item,
                                            close_brace(
                                                words::word(
                                                    Word::ReadyNone,
                                                    words::word(
                                                        Word::Arrow,
                                                        brace(
                                                            verdict_text(
                                                                *end,
                                                                close_brace(
                                                                    words::word(
                                                                        Word::Pending,
                                                                        words::word(
                                                                            Word::Arrow,
                                                                            verdict_text(
                                                                                *pending,
                                                                                words::word(
                                                                                    Word::Comma,
                                                                                    close_brace(
                                                                                        rest,
                                                                                    ),
                                                                                ),
                                                                            ),
                                                                        ),
                                                                    ),
                                                                ),
                                                            ),
                                                        ),
                                                    ),
                                                ),
                                            ),
                                        ),
                                    ),
                                ),
                            ),
                        ),
                    ),
                ),
            ),
        ),
    }
}

/// How the values that a join returns are spelled.
pub open spec fn returns_text(values: Returns, rest: Words) -> Words
    decreases values,
{
    match values {
        Returns::Nothing => rest,
        Returns::Unit(before) => returns_text(
            *before,
            words::word(Word::Open, words::word(Word::Close, words::word(Word::Comma, rest))),
        ),
        Returns::Take(before, name) => returns_text(
            *before,
            id(name, words::word(Word::Take, words::word(Word::Comma, rest))),
        ),
        Returns::Expect(before, name) => returns_text(
            *before,
            id(
                name,
                words::word(
                    Word::Take,
                    words::word(Word::Expect, words::word(Word::Comma, rest)),
                ),
            ),
        ),
    }
}

/// How type parameters are spelled.
pub open spec fn params_text(params: Params, rest: Words) -> Words
    decreases params,
{
    match params {
        Params::Nothing => rest,
        Params::Param(before, name) => params_text(*before, id(name, words::word(Word::Comma, rest))),
    }
}

/// How variants are spelled.
pub open spec fn variants_text(variants: Variants, rest: Words) -> Words
    decreases variants,
{
    match variants {
        Variants::Nothing => rest,
        Variants::Item(before, variant, param) => variants_text(
            *before,
            id(
                variant,
                words::word(
                    Word::Open,
                    id(param, words::word(Word::Close, words::word(Word::Comma, rest))),
                ),
            ),
        ),
        Variants::Finally(before, variant) => variants_text(
            *before,
            id(variant, words::word(Word::Comma, rest)),
        ),
    }
}

/// How one arm of the function that runs the bodies is spelled.
pub open spec fn body_arm_text(arm: BodyArm, rest: Words) -> Words {
    let block = words::word(
        Word::Arrow,
        brace(
            match arm.sink {
                Some((temporary, sink)) => words::word(
                    Word::LetWord,
                    id(
                        temporary,
                        words::word(
                            Word::Eq,
                            brace(
                                words::word(
                                    Word::Input(arm.body),
                                    close_brace(
                                        semi(
                                            words::word(
                                                Word::AllowUnreachable,
                                                brace(
                                                    id(
                                                        sink,
                                                        words::word(
                                                            Word::Eq,
                                                            words::word(
                                                                Word::SomeOpen,
                                                                id(
                                                                    temporary,
                                                                    words::word(
                                                                        Word::Close,
                                                                        semi(
                                                                            close_brace(
                                                                                close_brace(rest),
                                                                            ),
                                                                        ),
                                                                    ),
                                                                ),
                                                            ),
                                                        ),
                                                    ),
                                                ),
                                            ),
                                        ),
                                    ),
                                ),
                            ),
                        ),
                    ),
                ),
                None => words::word(
                    Word::LetUnit,
                    words::word(Word::Input(arm.body), semi(close_brace(rest))),
                ),
            },
        ),
    );
    id(
        arm.module,
        words::word(
            Word::ArmsInput,
            id(
                arm.variant,
                match arm.pattern {
                    Some(pattern) => words::word(
                        Word::Open,
                        words::word(Word::Input(pattern), words::word(Word::Close, block)),
                    ),
                    None => block,
                },
            ),
        ),
    )
}

/// How the arms of the function that runs the bodies are spelled.
pub open spec fn body_arms_text(arms: BodyArms, rest: Words) -> Words
    decreases arms,
{
    match arms {
        BodyArms::Nothing => rest,
        BodyArms::Arm(before, arm) => body_arms_text(*before, body_arm_text(arm, rest)),
    }
}

/// How a statement is spelled.
#[verifier::opaque]
pub open spec fn text(stmt: Stmt, rest: Words) -> Words
    decreases stmt,
{
    match stmt {
        Stmt::Skip => rest,
        Stmt::Then(s, t) => text(*s, text(*t, rest)),
        Stmt::Simple(step) => do_text(step, rest),
        Stmt::If(c, s) => words::word(
            Word::IfWord,
            cond_text(c, brace(text(*s, close_brace(rest)))),
        ),
        Stmt::IfElse(c, s, t) => words::word(
            Word::IfWord,
            cond_text(
                c,
                brace(
                    text(
                        *s,
                        close_brace(
                            words::word(Word::ElseWord, brace(text(*t, close_brace(rest)))),
                        ),
                    ),
                ),
            ),
        ),
        Stmt::IfElseIf(c, s, t) => words::word(
            Word::IfWord,
            cond_text(
                c,
                brace(text(*s, close_brace(words::word(Word::ElseWord, text(*t, rest))))),
            ),
        ),
        Stmt::Loop(s) => words::word(Word::LoopWord, brace(text(*s, close_brace(rest)))),
        Stmt::LetReady(place, name, verdict, absent) => {
            let body = words::word(
                Word::AsPinMut,
                brace(
                    verdict_text(
                        verdict,
                        close_brace(
                            words::word(
                                Word::ElseWord,
                                brace(bool_text(absent, close_brace(semi(rest)))),
                            ),
                        ),
                    ),
                ),
            );
            words::word(
                Word::LetWord,
                words::word(
                    Word::IsReady,
                    words::word(
                        Word::Eq,
                        words::word(
                            Word::IfWord,
                            words::word(
                                Word::LetWord,
                                words::word(
                                    Word::SomeOpen,
                                    id(
                                        name,
                                        words::word(
                                            Word::Close,
                                            words::word(
                                                Word::Eq,
                                                match place {
                                                    Place::Var(arm) => id(arm, body),
                                                    Place::Guard => words::word(Word::Guard, body),
                                                },
                                            ),
                                        ),
                                    ),
                                ),
                            ),
                        ),
                    ),
                ),
            )
        },
        Stmt::IfBody(name, s) => words::word(
            Word::IfWord,
            words::word(
                Word::LetWord,
                words::word(
                    Word::SomeFuture,
                    words::word(
                        Word::Eq,
                        id(name, words::word(Word::AsMut, brace(text(*s, close_brace(rest))))),
                    ),
                ),
            ),
        ),
        Stmt::IfReturned(s, t) => words::word(
            Word::IfWord,
            words::word(
                Word::LetWord,
                words::word(
                    Word::ReadyOutput,
                    words::word(
                        Word::Eq,
                        words::word(
                            Word::PollWord,
                            brace(
                                text(*s, close_brace(words::word(Word::ElseWord, text(*t, rest)))),
                            ),
                        ),
                    ),
                ),
            ),
        ),
        Stmt::IfTaken(name, s) => words::word(
            Word::IfWord,
            words::word(
                Word::LetWord,
                words::word(
                    Word::SomeItem,
                    words::word(
                        Word::Eq,
                        id(name, words::word(Word::Take, brace(text(*s, close_brace(rest))))),
                    ),
                ),
            ),
        ),
        Stmt::BreakWith(values) => words::word(
            Word::BreakWord,
            words::word(
                Word::Open,
                returns_text(values, words::word(Word::Close, semi(rest))),
            ),
        ),
        Stmt::Module(name, params, variants) => words::word(
            Word::ModWord,
            id(
                name,
                brace(
                    words::word(
                        Word::EnumArmsInput,
                        words::word(
                            Word::Less,
                            params_text(
                                params,
                                words::word(
                                    Word::Greater,
                                    brace(variants_text(variants, close_brace(close_brace(rest)))),
                                ),
                            ),
                        ),
                    ),
                ),
            ),
        ),
        Stmt::Function(function, param, arms, flag, b) => words::word(
            Word::LetWord,
            words::word(
                Word::MutWord,
                id(
                    function,
                    words::word(
                        Word::Eq,
                        words::word(
                            Word::AsyncWord,
                            words::word(
                                Word::Bar,
                                id(
                                    param,
                                    words::word(
                                        Word::Bar,
                                        brace(
                                            words::word(
                                                Word::MatchWord,
                                                id(
                                                    param,
                                                    brace(
                                                        body_arms_text(
                                                            arms,
                                                            close_brace(
                                                                words::word(
                                                                    Word::AllowUnreachable,
                                                                    brace(
                                                                        do_text(
                                                                            Do::Store(flag, b),
                                                                            words::word(
                                                                                Word::PendingForever,
                                                                                close_brace(
                                                                                    close_brace(
                                                                                        semi(rest),
                                                                                    ),
                                                                                ),
                                                                            ),
                                                                        ),
                                                                    ),
                                                                ),
                                                            ),
                                                        ),
                                                    ),
                                                ),
                                            ),
                                        ),
                                    ),
                                ),
                            ),
                        ),
                    ),
                ),
            ),
        ),
    }
}

} // verus!
