//! What the source text of an expansion says, word by word.
//!
//! A word is a keyword, a name, a mark, or a phrase of Rust that always stands together, such as
//! the reading of a flag. [`words`] reads the pieces of an expansion as words; text that is not
//! listed in [`spelled`] says nothing that could be read.

use vstd::prelude::*;

use crate::expansion::{Name, Piece};
use crate::syntax::Region;

verus! {

/// A word. Paths are left out of the forms below: `Some(` stands for
/// `::core::option::Option::Some(`.
pub enum Word {
    /// A generated name.
    Id(Name),
    /// A number.
    Number(usize),
    /// A region of the input.
    Input(Region),
    /// One token tree of the input.
    Tree(usize),
    /// Text that cannot be read.
    Unreadable,
    /// `#[allow(unused_variables)]`
    AllowUnused,
    /// `#[allow(unreachable_code)]`
    AllowUnreachable,
    /// `.is_some_and(|flag| flag.load(Relaxed))`
    IsSomeAndLoad,
    /// `.load(Relaxed)`
    Load,
    /// `.store(true, Relaxed)`
    StoreTrue,
    /// `.store(false, Relaxed)`
    StoreFalse,
    /// `.swap(true, Relaxed)`
    SwapTrue,
    /// `.fetch_add(1, Relaxed)`
    AddOne,
    /// `AtomicBool::new(false)`
    NewFalse,
    /// `AtomicUsize::new(0)`
    NewZero,
    /// `new_canceller_mut(`
    NewCancellerMut,
    /// `new_canceller(`
    NewCanceller,
    /// `pin!(Some(`
    PinSome,
    /// `Option<&AtomicBool>`
    FlagType,
    /// `AtomicRefCell::new(`
    NewCell,
    /// `PollOnce(unsafe { Pin::new_unchecked(future) }).await`
    PollBody,
    /// `PollOnce(`
    PollOnce,
    /// `PollNextOnce(`
    PollNextOnce,
    /// `).await`
    CloseAwait,
    /// `Poll::Ready(output)`
    ReadyOutput,
    /// `Poll::Ready(Some(item))`
    ReadySomeItem,
    /// `Poll::Ready(None)`
    ReadyNone,
    /// `Poll::Pending`
    Pending,
    /// `Some(output)`
    SomeOutput,
    /// `Some(item)`
    SomeItem,
    /// `Some(future)`
    SomeFuture,
    /// `Some(`
    SomeOpen,
    /// `.set(None)`
    SetNone,
    /// `None`
    NoneWord,
    /// `.is_some()`
    IsSome,
    /// `.is_none()`
    IsNone,
    /// `.take()`
    Take,
    /// `.expect(..)`
    Expect,
    /// `.borrow_mut()`
    BorrowMut,
    /// `.borrow()`
    Borrow,
    /// `.as_mut().as_pin_mut()`
    AsPinMut,
    /// `.as_mut()`
    AsMut,
    /// `yield_once().await`
    YieldOnce,
    /// `pending().await`
    PendingForever,
    /// `::ArmsInput::`
    ArmsInput,
    /// `pub enum ArmsInput`
    EnumArmsInput,
    /// `let _: () =`
    LetUnit,
    /// `already_finished`
    AlreadyFinished,
    /// `is_ready`
    IsReady,
    /// `guard`
    Guard,
    /// `output`
    OutputWord,
    /// `item`
    ItemWord,
    /// `poll`
    PollWord,
    /// `0usize`
    Zero,
    /// `1`
    One,
    /// `continue`
    ContinueWord,
    /// `return`
    ReturnWord,
    /// `break`
    BreakWord,
    /// `match`
    MatchWord,
    /// `async`
    AsyncWord,
    /// `drop(`
    DropOpen,
    /// `else`
    ElseWord,
    /// `loop`
    LoopWord,
    /// `true`
    TrueWord,
    /// `false`
    FalseWord,
    /// `let`
    LetWord,
    /// `mut`
    MutWord,
    /// `mod`
    ModWord,
    /// `if`
    IfWord,
    /// `==`
    EqEq,
    /// `=>`
    Arrow,
    /// `<=`
    AtMostWord,
    /// `||`
    OrOr,
    /// `&&`
    AndAnd,
    /// `=`
    Eq,
    /// `(`
    Open,
    /// `)`
    Close,
    /// `{`
    BraceOpen,
    /// `}`
    BraceClose,
    /// `,`
    Comma,
    /// `;`
    Semi,
    /// `!`
    Bang,
    /// `&`
    Amp,
    /// `|`
    Bar,
    /// `+`
    Plus,
    /// `:`
    Colon,
    /// `<`
    Less,
    /// `>`
    Greater,
}

/// Words, one after the other.
pub enum Words {
    End,
    Then(Word, Box<Words>),
}

/// A word and what follows it.
pub open spec fn word(first: Word, rest: Words) -> Words {
    Words::Then(first, Box::new(rest))
}

/// The words of a text, and what follows them.
#[verifier::opaque]
pub open spec fn spelled(text: Seq<char>, rest: Words) -> Words {
    let n = text.len();
    if n == 1 && text == "!"@ {
        word(Word::Bang, rest)
    } else if n == 1 && text == "("@ {
        word(Word::Open, rest)
    } else if n == 1 && text == ")"@ {
        word(Word::Close, rest)
    } else if n == 1 && text == ","@ {
        word(Word::Comma, rest)
    } else if n == 1 && text == ";"@ {
        word(Word::Semi, rest)
    } else if n == 1 && text == "="@ {
        word(Word::Eq, rest)
    } else if n == 1 && text == "{"@ {
        word(Word::BraceOpen, rest)
    } else if n == 1 && text == "}"@ {
        word(Word::BraceClose, rest)
    } else if n == 2 && text == "&&"@ {
        word(Word::AndAnd, rest)
    } else if n == 2 && text == "(("@ {
        word(Word::Open, word(Word::Open, rest))
    } else if n == 2 && text == "),"@ {
        word(Word::Close, word(Word::Comma, rest))
    } else if n == 2 && text == ");"@ {
        word(Word::Close, word(Word::Semi, rest))
    } else if n == 2 && text == "<="@ {
        word(Word::AtMostWord, rest)
    } else if n == 2 && text == "=="@ {
        word(Word::EqEq, rest)
    } else if n == 2 && text == "if"@ {
        word(Word::IfWord, rest)
    } else if n == 2 && text == "||"@ {
        word(Word::OrOr, rest)
    } else if n == 3 && text == "(),"@ {
        word(Word::Open, word(Word::Close, word(Word::Comma, rest)))
    } else if n == 3 && text == ") ="@ {
        word(Word::Close, word(Word::Eq, rest))
    } else if n == 3 && text == ") {"@ {
        word(Word::Close, word(Word::BraceOpen, rest))
    } else if n == 3 && text == "));"@ {
        word(Word::Close, word(Word::Close, word(Word::Semi, rest)))
    } else if n == 3 && text == ", &"@ {
        word(Word::Comma, word(Word::Amp, rest))
    } else if n == 3 && text == ",);"@ {
        word(Word::Comma, word(Word::Close, word(Word::Semi, rest)))
    } else if n == 3 && text == "; }"@ {
        word(Word::Semi, word(Word::BraceClose, rest))
    } else if n == 3 && text == "= {"@ {
        word(Word::Eq, word(Word::BraceOpen, rest))
    } else if n == 3 && text == "> {"@ {
        word(Word::Greater, word(Word::BraceOpen, rest))
    } else if n == 3 && text == "let"@ {
        word(Word::LetWord, rest)
    } else if n == 3 && text == "mod"@ {
        word(Word::ModWord, rest)
    } else if n == 3 && text == "} }"@ {
        word(Word::BraceClose, word(Word::BraceClose, rest))
    } else if n == 4 && text == ") ||"@ {
        word(Word::Close, word(Word::OrOr, rest))
    } else if n == 4 && text == "), &"@ {
        word(Word::Close, word(Word::Comma, word(Word::Amp, rest)))
    } else if n == 4 && text == "None"@ {
        word(Word::NoneWord, rest)
    } else if n == 4 && text == "if !"@ {
        word(Word::IfWord, word(Word::Bang, rest))
    } else if n == 4 && text == "true"@ {
        word(Word::TrueWord, rest)
    } else if n == 5 && text == "drop("@ {
        word(Word::DropOpen, rest)
    } else if n == 5 && text == "false"@ {
        word(Word::FalseWord, rest)
    } else if n == 5 && text == "if !("@ {
        word(Word::IfWord, word(Word::Bang, word(Word::Open, rest)))
    } else if n == 5 && text == "{ let"@ {
        word(Word::BraceOpen, word(Word::LetWord, rest))
    } else if n == 6 && text == "); } }"@ {
        word(Word::Close, word(Word::Semi, word(Word::BraceClose, word(Word::BraceClose, rest))))
    } else if n == 6 && text == "loop {"@ {
        word(Word::LoopWord, word(Word::BraceOpen, rest))
    } else if n == 6 && text == "{ if !"@ {
        word(Word::BraceOpen, word(Word::IfWord, word(Word::Bang, rest)))
    } else if n == 7 && text == ")); let"@ {
        word(Word::Close, word(Word::Close, word(Word::Semi, word(Word::LetWord, rest))))
    } else if n == 7 && text == "= None;"@ {
        word(Word::Eq, word(Word::NoneWord, word(Word::Semi, rest)))
    } else if n == 7 && text == "= true;"@ {
        word(Word::Eq, word(Word::TrueWord, word(Word::Semi, rest)))
    } else if n == 7 && text == "break ("@ {
        word(Word::BreakWord, word(Word::Open, rest))
    } else if n == 7 && text == "let mut"@ {
        word(Word::LetWord, word(Word::MutWord, rest))
    } else if n == 8 && text == ".take(),"@ {
        word(Word::Take, word(Word::Comma, rest))
    } else if n == 8 && text == "= false;"@ {
        word(Word::Eq, word(Word::FalseWord, word(Word::Semi, rest)))
    } else if n == 8 && text == "=> { let"@ {
        word(Word::Arrow, word(Word::BraceOpen, word(Word::LetWord, rest)))
    } else if n == 8 && text == "{ loop {"@ {
        word(Word::BraceOpen, word(Word::LoopWord, word(Word::BraceOpen, rest)))
    } else if n == 9 && text == "(item)));"@ {
        word(Word::Open, word(Word::ItemWord, word(Word::Close, word(Word::Close,
            word(Word::Close, word(Word::Semi, rest))))))
    } else if n == 9 && text == ", None, &"@ {
        word(Word::Comma, word(Word::NoneWord, word(Word::Comma, word(Word::Amp, rest))))
    } else if n == 9 && text == ".take() {"@ {
        word(Word::Take, word(Word::BraceOpen, rest))
    } else if n == 9 && text == "= 0usize;"@ {
        word(Word::Eq, word(Word::Zero, word(Word::Semi, rest)))
    } else if n == 9 && text == "= async |"@ {
        word(Word::Eq, word(Word::AsyncWord, word(Word::Bar, rest)))
    } else if n == 9 && text == "= true; }"@ {
        word(Word::Eq, word(Word::TrueWord, word(Word::Semi, word(Word::BraceClose, rest))))
    } else if n == 9 && text == "loop { if"@ {
        word(Word::LoopWord, word(Word::BraceOpen, word(Word::IfWord, rest)))
    } else if n == 9 && text == "| { match"@ {
        word(Word::Bar, word(Word::BraceOpen, word(Word::MatchWord, rest)))
    } else if n == 10 && text == ".is_none()"@ {
        word(Word::IsNone, rest)
    } else if n == 10 && text == ".is_some()"@ {
        word(Word::IsSome, rest)
    } else if n == 10 && text == "break; } }"@ {
        word(Word::BreakWord, word(Word::Semi, word(Word::BraceClose,
            word(Word::BraceClose, rest))))
    } else if n == 10 && text == "{ break; }"@ {
        word(Word::BraceOpen, word(Word::BreakWord, word(Word::Semi, word(Word::BraceClose, rest))))
    } else if n == 11 && text == "; continue;"@ {
        word(Word::Semi, word(Word::ContinueWord, word(Word::Semi, rest)))
    } else if n == 12 && text == "); } else if"@ {
        word(Word::Close, word(Word::Semi, word(Word::BraceClose, word(Word::ElseWord,
            word(Word::IfWord, rest)))))
    } else if n == 13 && text == "+ 1; break; }"@ {
        word(Word::Plus, word(Word::One, word(Word::Semi, word(Word::BreakWord,
            word(Word::Semi, word(Word::BraceClose, rest))))))
    } else if n == 13 && text == ".is_some() &&"@ {
        word(Word::IsSome, word(Word::AndAnd, rest))
    } else if n == 13 && text == "::ArmsInput::"@ {
        word(Word::ArmsInput, rest)
    } else if n == 13 && text == "= None; drop("@ {
        word(Word::Eq, word(Word::NoneWord, word(Word::Semi, word(Word::DropOpen, rest))))
    } else if n == 14 && text == ") { break; } }"@ {
        word(Word::Close, word(Word::BraceOpen, word(Word::BreakWord, word(Word::Semi,
            word(Word::BraceClose, word(Word::BraceClose, rest))))))
    } else if n == 14 && text == "); } else if !"@ {
        word(Word::Close, word(Word::Semi, word(Word::BraceClose, word(Word::ElseWord,
            word(Word::IfWord, word(Word::Bang, rest))))))
    } else if n == 14 && text == "= false; } } }"@ {
        word(Word::Eq, word(Word::FalseWord, word(Word::Semi, word(Word::BraceClose,
            word(Word::BraceClose, word(Word::BraceClose, rest))))))
    } else if n == 15 && text == ".is_none() && ("@ {
        word(Word::IsNone, word(Word::AndAnd, word(Word::Open, rest)))
    } else if n == 16 && text == "= false; let mut"@ {
        word(Word::Eq, word(Word::FalseWord, word(Word::Semi, word(Word::LetWord,
            word(Word::MutWord, rest)))))
    } else if n == 17 && text == "= 0usize; let mut"@ {
        word(Word::Eq, word(Word::Zero, word(Word::Semi, word(Word::LetWord,
            word(Word::MutWord, rest)))))
    } else if n == 17 && text == "{ let mut guard ="@ {
        word(Word::BraceOpen, word(Word::LetWord, word(Word::MutWord, word(Word::Guard,
            word(Word::Eq, rest)))))
    } else if n == 18 && text == ") => { let _: () ="@ {
        word(Word::Close, word(Word::Arrow, word(Word::BraceOpen, word(Word::LetUnit, rest))))
    } else if n == 19 && text == ".borrow().is_some()"@ {
        word(Word::Borrow, word(Word::IsSome, rest))
    } else if n == 21 && text == "{ pub enum ArmsInput<"@ {
        word(Word::BraceOpen, word(Word::EnumArmsInput, word(Word::Less, rest)))
    } else if n == 21 && text == "{ } else { break; } }"@ {
        word(Word::BraceOpen, word(Word::BraceClose, word(Word::ElseWord,
            word(Word::BraceOpen, word(Word::BreakWord, word(Word::Semi,
            word(Word::BraceClose, word(Word::BraceClose, rest))))))))
    } else if n == 22 && text == "let already_finished ="@ {
        word(Word::LetWord, word(Word::AlreadyFinished, word(Word::Eq, rest)))
    } else if n == 23 && text == ".is_none() { break; } }"@ {
        word(Word::IsNone, word(Word::BraceOpen, word(Word::BreakWord, word(Word::Semi,
            word(Word::BraceClose, word(Word::BraceClose, rest))))))
    } else if n == 24 && text == ".as_mut().as_pin_mut() {"@ {
        word(Word::AsPinMut, word(Word::BraceOpen, rest))
    } else if n == 30 && text == "#[allow(unused_variables)] let"@ {
        word(Word::AllowUnused, word(Word::LetWord, rest))
    } else if n == 30 && text == "::core::option::Option::Some(&"@ {
        word(Word::SomeOpen, word(Word::Amp, rest))
    } else if n == 30 && text == "} #[allow(unreachable_code)] {"@ {
        word(Word::BraceClose, word(Word::AllowUnreachable, word(Word::BraceOpen, rest)))
    } else if n == 31 && text == "= ::core::option::Option::None;"@ {
        word(Word::Eq, word(Word::NoneWord, word(Word::Semi, rest)))
    } else if n == 31 && text == "= ::core::option::Option::Some("@ {
        word(Word::Eq, word(Word::SomeOpen, rest))
    } else if n == 31 && text == "} else { false }; if is_ready {"@ {
        word(Word::BraceClose, word(Word::ElseWord, word(Word::BraceOpen,
            word(Word::FalseWord, word(Word::BraceClose, word(Word::Semi, word(Word::IfWord,
            word(Word::IsReady, word(Word::BraceOpen, rest)))))))))
    } else if n == 31 && text == "}; #[allow(unreachable_code)] {"@ {
        word(Word::BraceClose, word(Word::Semi, word(Word::AllowUnreachable,
            word(Word::BraceOpen, rest))))
    } else if n == 32 && text == ", ::core::option::Option::Some(&"@ {
        word(Word::Comma, word(Word::SomeOpen, word(Word::Amp, rest)))
    } else if n == 33 && text == ") = guard.as_mut().as_pin_mut() {"@ {
        word(Word::Close, word(Word::Eq, word(Word::Guard, word(Word::AsPinMut,
            word(Word::BraceOpen, rest)))))
    } else if n == 35 && text == ".set(::core::option::Option::None);"@ {
        word(Word::SetNone, word(Word::Semi, rest))
    } else if n == 39 && text == "= ::core::option::Option::None; let mut"@ {
        word(Word::Eq, word(Word::NoneWord, word(Word::Semi, word(Word::LetWord,
            word(Word::MutWord, rest)))))
    } else if n == 39 && text == "match ::join_me_maybe::_impl::PollOnce("@ {
        word(Word::MatchWord, word(Word::PollOnce, rest))
    } else if n == 42 && text == "= &::join_me_maybe::_impl::new_canceller(&"@ {
        word(Word::Eq, word(Word::Amp, word(Word::NewCanceller, word(Word::Amp, rest))))
    } else if n == 43 && text == "if let ::core::option::Option::Some(item) ="@ {
        word(Word::IfWord, word(Word::LetWord, word(Word::SomeItem, word(Word::Eq, rest))))
    } else if n == 44 && text == "= ::core::sync::atomic::AtomicUsize::new(0);"@ {
        word(Word::Eq, word(Word::NewZero, word(Word::Semi, rest)))
    } else if n == 45 && text == "= ::join_me_maybe::_impl::AtomicRefCell::new("@ {
        word(Word::Eq, word(Word::NewCell, rest))
    } else if n == 46 && text == ".load(::core::sync::atomic::Ordering::Relaxed)"@ {
        word(Word::Load, rest)
    } else if n == 46 && text == ".take().expect(\"this arm can't be cancelled\"),"@ {
        word(Word::Take, word(Word::Expect, word(Word::Comma, rest)))
    } else if n == 46 && text == "= &::join_me_maybe::_impl::new_canceller_mut(&"@ {
        word(Word::Eq, word(Word::Amp, word(Word::NewCancellerMut, word(Word::Amp, rest))))
    } else if n == 47 && text == "{ ::join_me_maybe::_impl::yield_once().await; }"@ {
        word(Word::BraceOpen, word(Word::YieldOnce, word(Word::Semi, word(Word::BraceClose, rest))))
    } else if n == 48 && text == ").await { ::core::task::Poll::Ready(output) => {"@ {
        word(Word::CloseAwait, word(Word::BraceOpen, word(Word::ReadyOutput,
            word(Word::Arrow, word(Word::BraceOpen, rest)))))
    } else if n == 48 && text == ".borrow_mut().set(::core::option::Option::None);"@ {
        word(Word::BorrowMut, word(Word::SetNone, word(Word::Semi, rest)))
    } else if n == 48 && text == ".load(::core::sync::atomic::Ordering::Relaxed) {"@ {
        word(Word::Load, word(Word::BraceOpen, rest))
    } else if n == 48 && text == "true } ::core::task::Poll::Pending => false, } }"@ {
        word(Word::TrueWord, word(Word::BraceClose, word(Word::Pending, word(Word::Arrow,
            word(Word::FalseWord, word(Word::Comma, word(Word::BraceClose,
            word(Word::BraceClose, rest))))))))
    } else if n == 49 && text == ".load(::core::sync::atomic::Ordering::Relaxed) =="@ {
        word(Word::Load, word(Word::EqEq, rest))
    } else if n == 49 && text == "= ::core::pin::pin!(::core::option::Option::Some("@ {
        word(Word::Eq, word(Word::PinSome, rest))
    } else if n == 51 && text == "= ::core::sync::atomic::AtomicBool::new(false); let"@ {
        word(Word::Eq, word(Word::NewFalse, word(Word::Semi, word(Word::LetWord, rest))))
    } else if n == 51 && text == "let is_ready = if let ::core::option::Option::Some("@ {
        word(Word::LetWord, word(Word::IsReady, word(Word::Eq, word(Word::IfWord,
            word(Word::LetWord, word(Word::SomeOpen, rest))))))
    } else if n == 51 && text == "{ ::join_me_maybe::_impl::yield_once().await; } } }"@ {
        word(Word::BraceOpen, word(Word::YieldOnce, word(Word::Semi, word(Word::BraceClose,
            word(Word::BraceClose, word(Word::BraceClose, rest))))))
    } else if n == 55 && text == ".fetch_add(1, ::core::sync::atomic::Ordering::Relaxed);"@ {
        word(Word::AddOne, word(Word::Semi, rest))
    } else if n == 55 && text == "= ::core::sync::atomic::AtomicBool::new(false); let mut"@ {
        word(Word::Eq, word(Word::NewFalse, word(Word::Semi, word(Word::LetWord,
            word(Word::MutWord, rest)))))
    } else if n == 55 && text == "= None; } if let ::core::option::Option::Some(future) ="@ {
        word(Word::Eq, word(Word::NoneWord, word(Word::Semi, word(Word::BraceClose,
            word(Word::IfWord, word(Word::LetWord, word(Word::SomeFuture,
            word(Word::Eq, rest))))))))
    } else if n == 57 && text == ".fetch_add(1, ::core::sync::atomic::Ordering::Relaxed); }"@ {
        word(Word::AddOne, word(Word::Semi, word(Word::BraceClose, rest)))
    } else if n == 65 && text == ".store(false, ::core::sync::atomic::Ordering::Relaxed); } else if"@ {
        word(Word::StoreFalse, word(Word::Semi, word(Word::BraceClose, word(Word::ElseWord,
            word(Word::IfWord, rest)))))
    } else if n == 66 && text == ".borrow_mut(); let is_ready = if let ::core::option::Option::Some("@ {
        word(Word::BorrowMut, word(Word::Semi, word(Word::LetWord, word(Word::IsReady,
            word(Word::Eq, word(Word::IfWord, word(Word::LetWord, word(Word::SomeOpen, rest))))))))
    } else if n == 71 && text == ".is_some() { false } else { match ::join_me_maybe::_impl::PollNextOnce("@ {
        word(Word::IsSome, word(Word::BraceOpen, word(Word::FalseWord, word(Word::BraceClose,
            word(Word::ElseWord, word(Word::BraceOpen, word(Word::MatchWord,
            word(Word::PollNextOnce, rest))))))))
    } else if n == 72 && text == ".is_some_and(|flag| flag.load(::core::sync::atomic::Ordering::Relaxed)))"@ {
        word(Word::IsSomeAndLoad, word(Word::Close, rest))
    } else if n == 72 && text == "} else { false }; if is_ready { guard.set(::core::option::Option::None);"@ {
        word(Word::BraceClose, word(Word::ElseWord, word(Word::BraceOpen,
            word(Word::FalseWord, word(Word::BraceClose, word(Word::Semi, word(Word::IfWord,
            word(Word::IsReady, word(Word::BraceOpen, word(Word::Guard, word(Word::SetNone,
            word(Word::Semi, rest))))))))))))
    } else if n == 76 && text == ").await { ::core::task::Poll::Ready(::core::option::Option::Some(item)) => {"@ {
        word(Word::CloseAwait, word(Word::BraceOpen, word(Word::ReadySomeItem,
            word(Word::Arrow, word(Word::BraceOpen, rest)))))
    } else if n == 76 && text == ".swap(true, ::core::sync::atomic::Ordering::Relaxed); if !already_finished {"@ {
        word(Word::SwapTrue, word(Word::Semi, word(Word::IfWord, word(Word::Bang,
            word(Word::AlreadyFinished, word(Word::BraceOpen, rest))))))
    } else if n == 78 && text == "= ::core::sync::atomic::AtomicBool::new(false); #[allow(unused_variables)] let"@ {
        word(Word::Eq, word(Word::NewFalse, word(Word::Semi, word(Word::AllowUnused,
            word(Word::LetWord, rest)))))
    } else if n == 82 && text == "= ::core::option::Option::Some(item); false } ::core::task::Poll::Ready(None) => {"@ {
        word(Word::Eq, word(Word::SomeItem, word(Word::Semi, word(Word::FalseWord,
            word(Word::BraceClose, word(Word::ReadyNone, word(Word::Arrow,
            word(Word::BraceOpen, rest))))))))
    } else if n == 86 && text == "= ::core::option::Option::Some(output); true } ::core::task::Poll::Pending => false, }"@ {
        word(Word::Eq, word(Word::SomeOutput, word(Word::Semi, word(Word::TrueWord,
            word(Word::BraceClose, word(Word::Pending, word(Word::Arrow,
            word(Word::FalseWord, word(Word::Comma, word(Word::BraceClose, rest))))))))))
    } else if n == 99 && text == ".store(true, ::core::sync::atomic::Ordering::Relaxed); ::core::future::pending().await } }; let mut"@ {
        word(Word::StoreTrue, word(Word::Semi, word(Word::PendingForever,
            word(Word::BraceClose, word(Word::BraceClose, word(Word::Semi,
            word(Word::LetWord, word(Word::MutWord, rest))))))))
    } else if n == 99 && text == ": ::core::option::Option<&::core::sync::atomic::AtomicBool> = ::core::option::Option::None; let mut"@ {
        word(Word::Colon, word(Word::FlagType, word(Word::Eq, word(Word::NoneWord,
            word(Word::Semi, word(Word::LetWord, word(Word::MutWord, rest)))))))
    } else if n == 189 && text == ".as_mut() { let poll = ::join_me_maybe::_impl::PollOnce(unsafe { ::core::pin::Pin::new_unchecked(future) }).await; if let ::core::task::Poll::Ready(output) = poll { return output; } else if"@ {
        word(Word::AsMut, word(Word::BraceOpen, word(Word::LetWord, word(Word::PollWord,
            word(Word::Eq, word(Word::PollBody, word(Word::Semi, word(Word::IfWord,
            word(Word::LetWord, word(Word::ReadyOutput, word(Word::Eq, word(Word::PollWord,
            word(Word::BraceOpen, word(Word::ReturnWord, word(Word::OutputWord,
            word(Word::Semi, word(Word::BraceClose, word(Word::ElseWord,
            word(Word::IfWord, rest)))))))))))))))))))
    } else {
        word(Word::Unreadable, rest)
    }
}

/// The words of a piece, and what follows them.
pub open spec fn read(piece: Piece, rest: Words) -> Words {
    match piece {
        Piece::Code(text) => spelled(text@, rest),
        Piece::Id(name) => word(Word::Id(name), rest),
        Piece::Number(n) => word(Word::Number(n), rest),
        Piece::Input(region) => word(Word::Input(region), rest),
        Piece::Tree(tree) => word(Word::Tree(tree), rest),
    }
}

/// The words of the pieces, and what follows them.
#[verifier::opaque]
pub open spec fn words(pieces: Seq<Piece>, rest: Words) -> Words
    decreases pieces.len(),
{
    if pieces.len() == 0 {
        rest
    } else {
        words(pieces.drop_last(), read(pieces.last(), rest))
    }
}

/// The words of the pieces from the `i`-th on, and what follows them.
pub open spec fn words_from(pieces: Seq<Piece>, i: int, rest: Words) -> Words
    decreases pieces.len() - i,
{
    if i >= pieces.len() {
        rest
    } else {
        read(pieces[i], words_from(pieces, i + 1, rest))
    }
}

proof fn lemma_words_from(pieces: Seq<Piece>, i: int, rest: Words)
    requires
        0 <= i < pieces.len(),
    ensures
        words_from(pieces, i, rest) == words_from(pieces.drop_last(), i, read(pieces.last(), rest)),
    decreases pieces.len() - i,
{
    if i + 1 < pieces.len() {
        lemma_words_from(pieces, i + 1, rest);
    } else {
        reveal_with_fuel(words_from, 2);
    }
}

proof fn lemma_words_in_order(pieces: Seq<Piece>, rest: Words)
    ensures
        words(pieces, rest) == words_from(pieces, 0, rest),
    decreases pieces.len(),
{
    reveal_with_fuel(words, 2);
    if pieces.len() > 0 {
        lemma_words_in_order(pieces.drop_last(), read(pieces.last(), rest));
        lemma_words_from(pieces, 0, rest);
    }
}

pub broadcast proof fn lemma_words_of_array<const N: usize>(pieces: [Piece; N], rest: Words)
    ensures
        #[trigger] words(pieces@, rest) == words_from(pieces@, 0, rest),
{
    lemma_words_in_order(pieces@, rest);
}

pub broadcast proof fn lemma_words_of_none(rest: Words)
    ensures
        #[trigger] words(Seq::empty(), rest) == rest,
{
    reveal_with_fuel(words, 2);
}

pub broadcast proof fn lemma_words_of_one_more(pieces: Seq<Piece>, piece: Piece, rest: Words)
    ensures
        #[trigger] words(pieces.push(piece), rest) == words(pieces, read(piece, rest)),
{
    reveal_with_fuel(words, 2);
    assert(pieces.push(piece).drop_last() =~= pieces);
}

pub broadcast proof fn lemma_words_of_both(a: Seq<Piece>, b: Seq<Piece>, rest: Words)
    ensures
        #[trigger] words(a + b, rest) == words(a, words(b, rest)),
    decreases b.len(),
{
    reveal_with_fuel(words, 2);
    if b.len() == 0 {
        assert(a + b =~= a);
    } else {
        lemma_words_of_both(a, b.drop_last(), read(b.last(), rest));
        assert((a + b).drop_last() =~= a + b.drop_last());
    }
}

pub broadcast group group_words {
    lemma_words_of_array,
    lemma_words_of_none,
    lemma_words_of_one_more,
    lemma_words_of_both,
}

pub proof fn lemma_spelled_a()
    ensures
        forall|rest: Words| #[trigger] spelled("!"@, rest) == word(Word::Bang, rest),
        forall|rest: Words| #[trigger] spelled("("@, rest) == word(Word::Open, rest),
        forall|rest: Words| #[trigger] spelled(")"@, rest) == word(Word::Close, rest),
        forall|rest: Words| #[trigger] spelled(","@, rest) == word(Word::Comma, rest),
        forall|rest: Words| #[trigger] spelled(";"@, rest) == word(Word::Semi, rest),
        forall|rest: Words| #[trigger] spelled("="@, rest) == word(Word::Eq, rest),
        forall|rest: Words| #[trigger] spelled("{"@, rest) == word(Word::BraceOpen, rest),
        forall|rest: Words| #[trigger] spelled("}"@, rest) == word(Word::BraceClose, rest),
        forall|rest: Words| #[trigger] spelled("&&"@, rest) == word(Word::AndAnd, rest),
        forall|rest: Words| #[trigger] spelled("(("@, rest) == word(Word::Open,
            word(Word::Open, rest)),
        forall|rest: Words| #[trigger] spelled("),"@, rest) == word(Word::Close,
            word(Word::Comma, rest)),
        forall|rest: Words| #[trigger] spelled(");"@, rest) == word(Word::Close,
            word(Word::Semi, rest)),
        forall|rest: Words| #[trigger] spelled("<="@, rest) == word(Word::AtMostWord, rest),
        forall|rest: Words| #[trigger] spelled("=="@, rest) == word(Word::EqEq, rest),
        forall|rest: Words| #[trigger] spelled("if"@, rest) == word(Word::IfWord, rest),
        forall|rest: Words| #[trigger] spelled("||"@, rest) == word(Word::OrOr, rest),
{
    reveal(spelled);
    reveal_strlit("!");
    reveal_strlit("(");
    reveal_strlit(")");
    reveal_strlit(",");
    reveal_strlit(";");
    reveal_strlit("=");
    reveal_strlit("{");
    reveal_strlit("}");
    reveal_strlit("&&");
    reveal_strlit("((");
    reveal_strlit("),");
    reveal_strlit(");");
    reveal_strlit("<=");
    reveal_strlit("==");
    reveal_strlit("if");
    reveal_strlit("||");
    assert("("@[0] != "!"@[0]);
    assert(")"@[0] != "!"@[0]);
    assert(")"@[0] != "("@[0]);
    assert(","@[0] != "!"@[0]);
    assert(","@[0] != "("@[0]);
    assert(","@[0] != ")"@[0]);
    assert(";"@[0] != "!"@[0]);
    assert(";"@[0] != "("@[0]);
    assert(";"@[0] != ")"@[0]);
    assert(";"@[0] != ","@[0]);
    assert("="@[0] != "!"@[0]);
    assert("="@[0] != "("@[0]);
    assert("="@[0] != ")"@[0]);
    assert("="@[0] != ","@[0]);
    assert("="@[0] != ";"@[0]);
    assert("{"@[0] != "!"@[0]);
    assert("{"@[0] != "("@[0]);
    assert("{"@[0] != ")"@[0]);
    assert("{"@[0] != ","@[0]);
    assert("{"@[0] != ";"@[0]);
    assert("{"@[0] != "="@[0]);
    assert("}"@[0] != "!"@[0]);
    assert("}"@[0] != "("@[0]);
    assert("}"@[0] != ")"@[0]);
    assert("}"@[0] != ","@[0]);
    assert("}"@[0] != ";"@[0]);
    assert("}"@[0] != "="@[0]);
    assert("}"@[0] != "{"@[0]);
    assert("(("@[0] != "&&"@[0]);
    assert("),"@[0] != "&&"@[0]);
    assert("),"@[0] != "(("@[0]);
    assert(");"@[0] != "&&"@[0]);
    assert(");"@[0] != "(("@[0]);
    assert(");"@[1] != "),"@[1]);
    assert("<="@[0] != "&&"@[0]);
    assert("<="@[0] != "(("@[0]);
    assert("<="@[0] != "),"@[0]);
    assert("<="@[0] != ");"@[0]);
    assert("=="@[0] != "&&"@[0]);
    assert("=="@[0] != "(("@[0]);
    assert("=="@[0] != "),"@[0]);
    assert("=="@[0] != ");"@[0]);
    assert("=="@[0] != "<="@[0]);
    assert("if"@[0] != "&&"@[0]);
    assert("if"@[0] != "(("@[0]);
    assert("if"@[0] != "),"@[0]);
    assert("if"@[0] != ");"@[0]);
    assert("if"@[0] != "<="@[0]);
    assert("if"@[0] != "=="@[0]);
    assert("||"@[0] != "&&"@[0]);
    assert("||"@[0] != "(("@[0]);
    assert("||"@[0] != "),"@[0]);
    assert("||"@[0] != ");"@[0]);
    assert("||"@[0] != "<="@[0]);
    assert("||"@[0] != "=="@[0]);
    assert("||"@[0] != "if"@[0]);
}

pub proof fn lemma_spelled_b()
    ensures
        forall|rest: Words| #[trigger] spelled("(),"@, rest) == word(Word::Open,
            word(Word::Close, word(Word::Comma, rest))),
        forall|rest: Words| #[trigger] spelled(") ="@, rest) == word(Word::Close,
            word(Word::Eq, rest)),
        forall|rest: Words| #[trigger] spelled(") {"@, rest) == word(Word::Close,
            word(Word::BraceOpen, rest)),
        forall|rest: Words| #[trigger] spelled("));"@, rest) == word(Word::Close,
            word(Word::Close, word(Word::Semi, rest))),
        forall|rest: Words| #[trigger] spelled(", &"@, rest) == word(Word::Comma,
            word(Word::Amp, rest)),
        forall|rest: Words| #[trigger] spelled(",);"@, rest) == word(Word::Comma,
            word(Word::Close, word(Word::Semi, rest))),
        forall|rest: Words| #[trigger] spelled("; }"@, rest) == word(Word::Semi,
            word(Word::BraceClose, rest)),
        forall|rest: Words| #[trigger] spelled("= {"@, rest) == word(Word::Eq,
            word(Word::BraceOpen, rest)),
        forall|rest: Words| #[trigger] spelled("> {"@, rest) == word(Word::Greater,
            word(Word::BraceOpen, rest)),
        forall|rest: Words| #[trigger] spelled("let"@, rest) == word(Word::LetWord, rest),
        forall|rest: Words| #[trigger] spelled("mod"@, rest) == word(Word::ModWord, rest),
        forall|rest: Words| #[trigger] spelled("} }"@, rest) == word(Word::BraceClose,
            word(Word::BraceClose, rest)),
        forall|rest: Words| #[trigger] spelled(") ||"@, rest) == word(Word::Close,
            word(Word::OrOr, rest)),
        forall|rest: Words| #[trigger] spelled("), &"@, rest) == word(Word::Close,
            word(Word::Comma, word(Word::Amp, rest))),
        forall|rest: Words| #[trigger] spelled("None"@, rest) == word(Word::NoneWord, rest),
        forall|rest: Words| #[trigger] spelled("if !"@, rest) == word(Word::IfWord,
            word(Word::Bang, rest)),
{
    reveal(spelled);
    reveal_strlit("(),");
    reveal_strlit(") =");
    reveal_strlit(") {");
    reveal_strlit("));");
    reveal_strlit(", &");
    reveal_strlit(",);");
    reveal_strlit("; }");
    reveal_strlit("= {");
    reveal_strlit("> {");
    reveal_strlit("let");
    reveal_strlit("mod");
    reveal_strlit("} }");
    reveal_strlit(") ||");
    reveal_strlit("), &");
    reveal_strlit("None");
    reveal_strlit("if !");
    reveal_strlit("true");
    assert(") ="@[0] != "(),"@[0]);
    assert(") {"@[0] != "(),"@[0]);
    assert(") {"@[2] != ") ="@[2]);
    assert("));"@[0] != "(),"@[0]);
    assert("));"@[1] != ") ="@[1]);
    assert("));"@[1] != ") {"@[1]);
    assert(", &"@[0] != "(),"@[0]);
    assert(", &"@[0] != ") ="@[0]);
    assert(", &"@[0] != ") {"@[0]);
    assert(", &"@[0] != "));"@[0]);
    assert(",);"@[0] != "(),"@[0]);
    assert(",);"@[0] != ") ="@[0]);
    assert(",);"@[0] != ") {"@[0]);
    assert(",);"@[0] != "));"@[0]);
    assert(",);"@[1] != ", &"@[1]);
    assert("; }"@[0] != "(),"@[0]);
    assert("; }"@[0] != ") ="@[0]);
    assert("; }"@[0] != ") {"@[0]);
    assert("; }"@[0] != "));"@[0]);
    assert("; }"@[0] != ", &"@[0]);
    assert("; }"@[0] != ",);"@[0]);
    assert("= {"@[0] != "(),"@[0]);
    assert("= {"@[0] != ") ="@[0]);
    assert("= {"@[0] != ") {"@[0]);
    assert("= {"@[0] != "));"@[0]);
    assert("= {"@[0] != ", &"@[0]);
    assert("= {"@[0] != ",);"@[0]);
    assert("= {"@[0] != "; }"@[0]);
    assert("> {"@[0] != "(),"@[0]);
    assert("> {"@[0] != ") ="@[0]);
    assert("> {"@[0] != ") {"@[0]);
    assert("> {"@[0] != "));"@[0]);
    assert("> {"@[0] != ", &"@[0]);
    assert("> {"@[0] != ",);"@[0]);
    assert("> {"@[0] != "; }"@[0]);
    assert("> {"@[0] != "= {"@[0]);
    assert("let"@[0] != "(),"@[0]);
    assert("let"@[0] != ") ="@[0]);
    assert("let"@[0] != ") {"@[0]);
    assert("let"@[0] != "));"@[0]);
    assert("let"@[0] != ", &"@[0]);
    assert("let"@[0] != ",);"@[0]);
    assert("let"@[0] != "; }"@[0]);
    assert("let"@[0] != "= {"@[0]);
    assert("let"@[0] != "> {"@[0]);
    assert("mod"@[0] != "(),"@[0]);
    assert("mod"@[0] != ") ="@[0]);
    assert("mod"@[0] != ") {"@[0]);
    assert("mod"@[0] != "));"@[0]);
    assert("mod"@[0] != ", &"@[0]);
    assert("mod"@[0] != ",);"@[0]);
    assert("mod"@[0] != "; }"@[0]);
    assert("mod"@[0] != "= {"@[0]);
    assert("mod"@[0] != "> {"@[0]);
    assert("mod"@[0] != "let"@[0]);
    assert("} }"@[0] != "(),"@[0]);
    assert("} }"@[0] != ") ="@[0]);
    assert("} }"@[0] != ") {"@[0]);
    assert("} }"@[0] != "));"@[0]);
    assert("} }"@[0] != ", &"@[0]);
    assert("} }"@[0] != ",);"@[0]);
    assert("} }"@[0] != "; }"@[0]);
    assert("} }"@[0] != "= {"@[0]);
    assert("} }"@[0] != "> {"@[0]);
    assert("} }"@[0] != "let"@[0]);
    assert("} }"@[0] != "mod"@[0]);
    assert("), &"@[1] != ") ||"@[1]);
    assert("None"@[0] != ") ||"@[0]);
    assert("None"@[0] != "), &"@[0]);
    assert("if !"@[0] != ") ||"@[0]);
    assert("if !"@[0] != "), &"@[0]);
    assert("if !"@[0] != "None"@[0]);
}

pub proof fn lemma_spelled_c()
    ensures
        forall|rest: Words| #[trigger] spelled("true"@, rest) == word(Word::TrueWord, rest),
        forall|rest: Words| #[trigger] spelled("drop("@, rest) == word(Word::DropOpen, rest),
        forall|rest: Words| #[trigger] spelled("false"@, rest) == word(Word::FalseWord, rest),
        forall|rest: Words| #[trigger] spelled("if !("@, rest) == word(Word::IfWord,
            word(Word::Bang, word(Word::Open, rest))),
        forall|rest: Words| #[trigger] spelled("{ let"@, rest) == word(Word::BraceOpen,
            word(Word::LetWord, rest)),
        forall|rest: Words| #[trigger] spelled("); } }"@, rest) == word(Word::Close,
            word(Word::Semi, word(Word::BraceClose, word(Word::BraceClose, rest)))),
        forall|rest: Words| #[trigger] spelled("loop {"@, rest) == word(Word::LoopWord,
            word(Word::BraceOpen, rest)),
        forall|rest: Words| #[trigger] spelled("{ if !"@, rest) == word(Word::BraceOpen,
            word(Word::IfWord, word(Word::Bang, rest))),
        forall|rest: Words| #[trigger] spelled(")); let"@, rest) == word(Word::Close,
            word(Word::Close, word(Word::Semi, word(Word::LetWord, rest)))),
        forall|rest: Words| #[trigger] spelled("= None;"@, rest) == word(Word::Eq,
            word(Word::NoneWord, word(Word::Semi, rest))),
        forall|rest: Words| #[trigger] spelled("= true;"@, rest) == word(Word::Eq,
            word(Word::TrueWord, word(Word::Semi, rest))),
        forall|rest: Words| #[trigger] spelled("break ("@, rest) == word(Word::BreakWord,
            word(Word::Open, rest)),
        forall|rest: Words| #[trigger] spelled("let mut"@, rest) == word(Word::LetWord,
            word(Word::MutWord, rest)),
        forall|rest: Words| #[trigger] spelled(".take(),"@, rest) == word(Word::Take,
            word(Word::Comma, rest)),
        forall|rest: Words| #[trigger] spelled("= false;"@, rest) == word(Word::Eq,
            word(Word::FalseWord, word(Word::Semi, rest))),
        forall|rest: Words| #[trigger] spelled("=> { let"@, rest) == word(Word::Arrow,
            word(Word::BraceOpen, word(Word::LetWord, rest))),
{
    reveal(spelled);
    reveal_strlit(") ||");
    reveal_strlit("), &");
    reveal_strlit("None");
    reveal_strlit("if !");
    reveal_strlit("true");
    reveal_strlit("drop(");
    reveal_strlit("false");
    reveal_strlit("if !(");
    reveal_strlit("{ let");
    reveal_strlit("); } }");
    reveal_strlit("loop {");
    reveal_strlit("{ if !");
    reveal_strlit(")); let");
    reveal_strlit("= None;");
    reveal_strlit("= true;");
    reveal_strlit("break (");
    reveal_strlit("let mut");
    reveal_strlit(".take(),");
    reveal_strlit("= false;");
    reveal_strlit("=> { let");
    reveal_strlit("{ loop {");
    assert("true"@[0] != ") ||"@[0]);
    assert("true"@[0] != "), &"@[0]);
    assert("true"@[0] != "None"@[0]);
    assert("true"@[0] != "if !"@[0]);
    assert("false"@[0] != "drop("@[0]);
    assert("if !("@[0] != "drop("@[0]);
    assert("if !("@[0] != "false"@[0]);
    assert("{ let"@[0] != "drop("@[0]);
    assert("{ let"@[0] != "false"@[0]);
    assert("{ let"@[0] != "if !("@[0]);
    assert("loop {"@[0] != "); } }"@[0]);
    assert("{ if !"@[0] != "); } }"@[0]);
    assert("{ if !"@[0] != "loop {"@[0]);
    assert("= None;"@[0] != ")); let"@[0]);
    assert("= true;"@[0] != ")); let"@[0]);
    assert("= true;"@[2] != "= None;"@[2]);
    assert("break ("@[0] != ")); let"@[0]);
    assert("break ("@[0] != "= None;"@[0]);
    assert("break ("@[0] != "= true;"@[0]);
    assert("let mut"@[0] != ")); let"@[0]);
    assert("let mut"@[0] != "= None;"@[0]);
    assert("let mut"@[0] != "= true;"@[0]);
    assert("let mut"@[0] != "break ("@[0]);
    assert("= false;"@[0] != ".take(),"@[0]);
    assert("=> { let"@[0] != ".take(),"@[0]);
    assert("=> { let"@[1] != "= false;"@[1]);
}

pub proof fn lemma_spelled_d()
    ensures
        forall|rest: Words| #[trigger] spelled("{ loop {"@, rest) == word(Word::BraceOpen,
            word(Word::LoopWord, word(Word::BraceOpen, rest))),
        forall|rest: Words| #[trigger] spelled("(item)));"@, rest) == word(Word::Open,
            word(Word::ItemWord, word(Word::Close, word(Word::Close, word(Word::Close,
            word(Word::Semi, rest)))))),
        forall|rest: Words| #[trigger] spelled(", None, &"@, rest) == word(Word::Comma,
            word(Word::NoneWord, word(Word::Comma, word(Word::Amp, rest)))),
        forall|rest: Words| #[trigger] spelled(".take() {"@, rest) == word(Word::Take,
            word(Word::BraceOpen, rest)),
        forall|rest: Words| #[trigger] spelled("= 0usize;"@, rest) == word(Word::Eq,
            word(Word::Zero, word(Word::Semi, rest))),
        forall|rest: Words| #[trigger] spelled("= async |"@, rest) == word(Word::Eq,
            word(Word::AsyncWord, word(Word::Bar, rest))),
        forall|rest: Words| #[trigger] spelled("= true; }"@, rest) == word(Word::Eq,
            word(Word::TrueWord, word(Word::Semi, word(Word::BraceClose, rest)))),
        forall|rest: Words| #[trigger] spelled("loop { if"@, rest) == word(Word::LoopWord,
            word(Word::BraceOpen, word(Word::IfWord, rest))),
        forall|rest: Words| #[trigger] spelled("| { match"@, rest) == word(Word::Bar,
            word(Word::BraceOpen, word(Word::MatchWord, rest))),
        forall|rest: Words| #[trigger] spelled(".is_none()"@, rest) == word(Word::IsNone, rest),
        forall|rest: Words| #[trigger] spelled(".is_some()"@, rest) == word(Word::IsSome, rest),
        forall|rest: Words| #[trigger] spelled("break; } }"@, rest) == word(Word::BreakWord,
            word(Word::Semi, word(Word::BraceClose, word(Word::BraceClose, rest)))),
        forall|rest: Words| #[trigger] spelled("{ break; }"@, rest) == word(Word::BraceOpen,
            word(Word::BreakWord, word(Word::Semi, word(Word::BraceClose, rest)))),
        forall|rest: Words| #[trigger] spelled("; continue;"@, rest) == word(Word::Semi,
            word(Word::ContinueWord, word(Word::Semi, rest))),
        forall|rest: Words| #[trigger] spelled("); } else if"@, rest) == word(Word::Close,
            word(Word::Semi, word(Word::BraceClose, word(Word::ElseWord,
            word(Word::IfWord, rest))))),
        forall|rest: Words| #[trigger] spelled("+ 1; break; }"@, rest) == word(Word::Plus,
            word(Word::One, word(Word::Semi, word(Word::BreakWord, word(Word::Semi,
            word(Word::BraceClose, rest)))))),
{
    reveal(spelled);
    reveal_strlit(".take(),");
    reveal_strlit("= false;");
    reveal_strlit("=> { let");
    reveal_strlit("{ loop {");
    reveal_strlit("(item)));");
    reveal_strlit(", None, &");
    reveal_strlit(".take() {");
    reveal_strlit("= 0usize;");
    reveal_strlit("= async |");
    reveal_strlit("= true; }");
    reveal_strlit("loop { if");
    reveal_strlit("| { match");
    reveal_strlit(".is_none()");
    reveal_strlit(".is_some()");
    reveal_strlit("break; } }");
    reveal_strlit("{ break; }");
    reveal_strlit("; continue;");
    reveal_strlit("); } else if");
    reveal_strlit("+ 1; break; }");
    reveal_strlit(".is_some() &&");
    reveal_strlit("::ArmsInput::");
    reveal_strlit("= None; drop(");
    assert("{ loop {"@[0] != ".take(),"@[0]);
    assert("{ loop {"@[0] != "= false;"@[0]);
    assert("{ loop {"@[0] != "=> { let"@[0]);
    assert(", None, &"@[0] != "(item)));"@[0]);
    assert(".take() {"@[0] != "(item)));"@[0]);
    assert(".take() {"@[0] != ", None, &"@[0]);
    assert("= 0usize;"@[0] != "(item)));"@[0]);
    assert("= 0usize;"@[0] != ", None, &"@[0]);
    assert("= 0usize;"@[0] != ".take() {"@[0]);
    assert("= async |"@[0] != "(item)));"@[0]);
    assert("= async |"@[0] != ", None, &"@[0]);
    assert("= async |"@[0] != ".take() {"@[0]);
    assert("= async |"@[2] != "= 0usize;"@[2]);
    assert("= true; }"@[0] != "(item)));"@[0]);
    assert("= true; }"@[0] != ", None, &"@[0]);
    assert("= true; }"@[0] != ".take() {"@[0]);
    assert("= true; }"@[2] != "= 0usize;"@[2]);
    assert("= true; }"@[2] != "= async |"@[2]);
    assert("loop { if"@[0] != "(item)));"@[0]);
    assert("loop { if"@[0] != ", None, &"@[0]);
    assert("loop { if"@[0] != ".take() {"@[0]);
    assert("loop { if"@[0] != "= 0usize;"@[0]);
    assert("loop { if"@[0] != "= async |"@[0]);
    assert("loop { if"@[0] != "= true; }"@[0]);
    assert("| { match"@[0] != "(item)));"@[0]);
    assert("| { match"@[0] != ", None, &"@[0]);
    assert("| { match"@[0] != ".take() {"@[0]);
    assert("| { match"@[0] != "= 0usize;"@[0]);
    assert("| { match"@[0] != "= async |"@[0]);
    assert("| { match"@[0] != "= true; }"@[0]);
    assert("| { match"@[0] != "loop { if"@[0]);
    assert(".is_some()"@[4] != ".is_none()"@[4]);
    assert("break; } }"@[0] != ".is_none()"@[0]);
    assert("break; } }"@[0] != ".is_some()"@[0]);
    assert("{ break; }"@[0] != ".is_none()"@[0]);
    assert("{ break; }"@[0] != ".is_some()"@[0]);
    assert("{ break; }"@[0] != "break; } }"@[0]);
}

pub proof fn lemma_spelled_e()
    ensures
        forall|rest: Words| #[trigger] spelled(".is_some() &&"@, rest) == word(Word::IsSome,
            word(Word::AndAnd, rest)),
        forall|rest: Words| #[trigger] spelled("::ArmsInput::"@, rest) == word(Word::ArmsInput, rest),
        forall|rest: Words| #[trigger] spelled("= None; drop("@, rest) == word(Word::Eq,
            word(Word::NoneWord, word(Word::Semi, word(Word::DropOpen, rest)))),
        forall|rest: Words| #[trigger] spelled(") { break; } }"@, rest) == word(Word::Close,
            word(Word::BraceOpen, word(Word::BreakWord, word(Word::Semi,
            word(Word::BraceClose, word(Word::BraceClose, rest)))))),
        forall|rest: Words| #[trigger] spelled("); } else if !"@, rest) == word(Word::Close,
            word(Word::Semi, word(Word::BraceClose, word(Word::ElseWord, word(Word::IfWord,
            word(Word::Bang, rest)))))),
        forall|rest: Words| #[trigger] spelled("= false; } } }"@, rest) == word(Word::Eq,
            word(Word::FalseWord, word(Word::Semi, word(Word::BraceClose,
            word(Word::BraceClose, word(Word::BraceClose, rest)))))),
        forall|rest: Words| #[trigger] spelled(".is_none() && ("@, rest) == word(Word::IsNone, word(Word::AndAnd, word(Word::Open, rest))),
        forall|rest: Words| #[trigger] spelled("= false; let mut"@, rest) == word(Word::Eq,
            word(Word::FalseWord, word(Word::Semi, word(Word::LetWord,
            word(Word::MutWord, rest))))),
        forall|rest: Words| #[trigger] spelled("= 0usize; let mut"@, rest) == word(Word::Eq,
            word(Word::Zero, word(Word::Semi, word(Word::LetWord, word(Word::MutWord, rest))))),
        forall|rest: Words| #[trigger] spelled("{ let mut guard ="@, rest) == word(Word::BraceOpen, word(Word::LetWord, word(Word::MutWord, word(Word::Guard, word(Word::Eq, rest))))),
        forall|rest: Words| #[trigger] spelled(") => { let _: () ="@, rest) == word(Word::Close, word(Word::Arrow, word(Word::BraceOpen, word(Word::LetUnit, rest)))),
        forall|rest: Words| #[trigger] spelled(".borrow().is_some()"@, rest) == word(Word::Borrow, word(Word::IsSome, rest)),
        forall|rest: Words| #[trigger] spelled("{ pub enum ArmsInput<"@, rest) == word(Word::BraceOpen, word(Word::EnumArmsInput, word(Word::Less, rest))),
        forall|rest: Words| #[trigger] spelled("{ } else { break; } }"@, rest) == word(Word::BraceOpen, word(Word::BraceClose, word(Word::ElseWord, word(Word::BraceOpen, word(Word::BreakWord, word(Word::Semi, word(Word::BraceClose, word(Word::BraceClose, rest)))))))),
        forall|rest: Words| #[trigger] spelled("let already_finished ="@, rest) == word(Word::LetWord, word(Word::AlreadyFinished, word(Word::Eq, rest))),
        forall|rest: Words| #[trigger] spelled(".is_none() { break; } }"@, rest) == word(Word::IsNone, word(Word::BraceOpen, word(Word::BreakWord, word(Word::Semi, word(Word::BraceClose, word(Word::BraceClose, rest)))))),
{
    reveal(spelled);
    reveal_strlit("+ 1; break; }");
    reveal_strlit(".is_some() &&");
    reveal_strlit("::ArmsInput::");
    reveal_strlit("= None; drop(");
    reveal_strlit(") { break; } }");
    reveal_strlit("); } else if !");
    reveal_strlit("= false; } } }");
    reveal_strlit(".is_none() && (");
    reveal_strlit("= false; let mut");
    reveal_strlit("= 0usize; let mut");
    reveal_strlit("{ let mut guard =");
    reveal_strlit(") => { let _: () =");
    reveal_strlit(".borrow().is_some()");
    reveal_strlit("{ pub enum ArmsInput<");
    reveal_strlit("{ } else { break; } }");
    reveal_strlit("let already_finished =");
    reveal_strlit(".is_none() { break; } }");
    assert(".is_some() &&"@[0] != "+ 1; break; }"@[0]);
    assert("::ArmsInput::"@[0] != "+ 1; break; }"@[0]);
    assert("::ArmsInput::"@[0] != ".is_some() &&"@[0]);
    assert("= None; drop("@[0] != "+ 1; break; }"@[0]);
    assert("= None; drop("@[0] != ".is_some() &&"@[0]);
    assert("= None; drop("@[0] != "::ArmsInput::"@[0]);
    assert("); } else if !"@[1] != ") { break; } }"@[1]);
    assert("= false; } } }"@[0] != ") { break; } }"@[0]);
    assert("= false; } } }"@[0] != "); } else if !"@[0]);
    assert("{ let mut guard ="@[0] != "= 0usize; let mut"@[0]);
    assert("{ } else { break; } }"@[2] != "{ pub enum ArmsInput<"@[2]);
}

pub proof fn lemma_spelled_f()
    ensures
        forall|rest: Words| #[trigger] spelled(".as_mut().as_pin_mut() {"@, rest) == word(Word::AsPinMut, word(Word::BraceOpen, rest)),
        forall|rest: Words| #[trigger] spelled("#[allow(unused_variables)] let"@, rest) == word(Word::AllowUnused, word(Word::LetWord, rest)),
        forall|rest: Words| #[trigger] spelled("::core::option::Option::Some(&"@, rest) == word(Word::SomeOpen, word(Word::Amp, rest)),
        forall|rest: Words| #[trigger] spelled("} #[allow(unreachable_code)] {"@, rest) == word(Word::BraceClose, word(Word::AllowUnreachable, word(Word::BraceOpen, rest))),
        forall|rest: Words| #[trigger] spelled("= ::core::option::Option::None;"@, rest) == word(Word::Eq, word(Word::NoneWord, word(Word::Semi, rest))),
        forall|rest: Words| #[trigger] spelled("= ::core::option::Option::Some("@, rest) == word(Word::Eq, word(Word::SomeOpen, rest)),
        forall|rest: Words| #[trigger] spelled("} else { false }; if is_ready {"@, rest) == word(Word::BraceClose, word(Word::ElseWord, word(Word::BraceOpen, word(Word::FalseWord, word(Word::BraceClose, word(Word::Semi, word(Word::IfWord, word(Word::IsReady, word(Word::BraceOpen, rest))))))))),
        forall|rest: Words| #[trigger] spelled("}; #[allow(unreachable_code)] {"@, rest) == word(Word::BraceClose, word(Word::Semi, word(Word::AllowUnreachable, word(Word::BraceOpen, rest)))),
        forall|rest: Words| #[trigger] spelled(", ::core::option::Option::Some(&"@, rest) == word(Word::Comma, word(Word::SomeOpen, word(Word::Amp, rest))),
        forall|rest: Words| #[trigger] spelled(") = guard.as_mut().as_pin_mut() {"@, rest) == word(Word::Close, word(Word::Eq, word(Word::Guard, word(Word::AsPinMut, word(Word::BraceOpen, rest))))),
        forall|rest: Words| #[trigger] spelled(".set(::core::option::Option::None);"@, rest) == word(Word::SetNone, word(Word::Semi, rest)),
        forall|rest: Words| #[trigger] spelled("= ::core::option::Option::None; let mut"@, rest) == word(Word::Eq, word(Word::NoneWord, word(Word::Semi, word(Word::LetWord, word(Word::MutWord, rest))))),
        forall|rest: Words| #[trigger] spelled("match ::join_me_maybe::_impl::PollOnce("@, rest) == word(Word::MatchWord, word(Word::PollOnce, rest)),
        forall|rest: Words| #[trigger] spelled("= &::join_me_maybe::_impl::new_canceller(&"@, rest) == word(Word::Eq, word(Word::Amp, word(Word::NewCanceller, word(Word::Amp, rest)))),
        forall|rest: Words| #[trigger] spelled("if let ::core::option::Option::Some(item) ="@, rest) == word(Word::IfWord, word(Word::LetWord, word(Word::SomeItem, word(Word::Eq, rest)))),
        forall|rest: Words| #[trigger] spelled("= ::core::sync::atomic::AtomicUsize::new(0);"@, rest) == word(Word::Eq, word(Word::NewZero, word(Word::Semi, rest))),
{
    reveal(spelled);
    reveal_strlit(".as_mut().as_pin_mut() {");
    reveal_strlit("#[allow(unused_variables)] let");
    reveal_strlit("::core::option::Option::Some(&");
    reveal_strlit("} #[allow(unreachable_code)] {");
    reveal_strlit("= ::core::option::Option::None;");
    reveal_strlit("= ::core::option::Option::Some(");
    reveal_strlit("} else { false }; if is_ready {");
    reveal_strlit("}; #[allow(unreachable_code)] {");
    reveal_strlit(", ::core::option::Option::Some(&");
    reveal_strlit(") = guard.as_mut().as_pin_mut() {");
    reveal_strlit(".set(::core::option::Option::None);");
    reveal_strlit("= ::core::option::Option::None; let mut");
    reveal_strlit("match ::join_me_maybe::_impl::PollOnce(");
    reveal_strlit("= &::join_me_maybe::_impl::new_canceller(&");
    reveal_strlit("if let ::core::option::Option::Some(item) =");
    reveal_strlit("= ::core::sync::atomic::AtomicUsize::new(0);");
    assert("::core::option::Option::Some(&"@[0] != "#[allow(unused_variables)] let"@[0]);
    assert("} #[allow(unreachable_code)] {"@[0] != "#[allow(unused_variables)] let"@[0]);
    assert("} #[allow(unreachable_code)] {"@[0] != "::core::option::Option::Some(&"@[0]);
    assert("= ::core::option::Option::Some("@[26] != "= ::core::option::Option::None;"@[26]);
    assert("} else { false }; if is_ready {"@[0] != "= ::core::option::Option::None;"@[0]);
    assert("} else { false }; if is_ready {"@[0] != "= ::core::option::Option::Some("@[0]);
    assert("}; #[allow(unreachable_code)] {"@[0] != "= ::core::option::Option::None;"@[0]);
    assert("}; #[allow(unreachable_code)] {"@[0] != "= ::core::option::Option::Some("@[0]);
    assert("}; #[allow(unreachable_code)] {"@[1] != "} else { false }; if is_ready {"@[1]);
    assert("match ::join_me_maybe::_impl::PollOnce("@[0] != "= ::core::option::Option::None; let mut"@[0]);
}

pub proof fn lemma_spelled_g()
    ensures
        forall|rest: Words| #[trigger] spelled("= ::join_me_maybe::_impl::AtomicRefCell::new("@, rest) == word(Word::Eq, word(Word::NewCell, rest)),
        forall|rest: Words| #[trigger] spelled(".load(::core::sync::atomic::Ordering::Relaxed)"@, rest) == word(Word::Load, rest),
        forall|rest: Words| #[trigger] spelled(".take().expect(\"this arm can't be cancelled\"),"@, rest) == word(Word::Take, word(Word::Expect, word(Word::Comma, rest))),
        forall|rest: Words| #[trigger] spelled("= &::join_me_maybe::_impl::new_canceller_mut(&"@, rest) == word(Word::Eq, word(Word::Amp, word(Word::NewCancellerMut, word(Word::Amp, rest)))),
        forall|rest: Words| #[trigger] spelled("{ ::join_me_maybe::_impl::yield_once().await; }"@, rest) == word(Word::BraceOpen, word(Word::YieldOnce, word(Word::Semi, word(Word::BraceClose, rest)))),
        forall|rest: Words| #[trigger] spelled(").await { ::core::task::Poll::Ready(output) => {"@, rest) == word(Word::CloseAwait, word(Word::BraceOpen, word(Word::ReadyOutput, word(Word::Arrow, word(Word::BraceOpen, rest))))),
        forall|rest: Words| #[trigger] spelled(".borrow_mut().set(::core::option::Option::None);"@, rest) == word(Word::BorrowMut, word(Word::SetNone, word(Word::Semi, rest))),
        forall|rest: Words| #[trigger] spelled(".load(::core::sync::atomic::Ordering::Relaxed) {"@, rest) == word(Word::Load, word(Word::BraceOpen, rest)),
        forall|rest: Words| #[trigger] spelled("true } ::core::task::Poll::Pending => false, } }"@, rest) == word(Word::TrueWord, word(Word::BraceClose, word(Word::Pending, word(Word::Arrow, word(Word::FalseWord, word(Word::Comma, word(Word::BraceClose, word(Word::BraceClose, rest)))))))),
        forall|rest: Words| #[trigger] spelled(".load(::core::sync::atomic::Ordering::Relaxed) =="@, rest) == word(Word::Load, word(Word::EqEq, rest)),
        forall|rest: Words| #[trigger] spelled("= ::core::pin::pin!(::core::option::Option::Some("@, rest) == word(Word::Eq, word(Word::PinSome, rest)),
        forall|rest: Words| #[trigger] spelled("= ::core::sync::atomic::AtomicBool::new(false); let"@, rest) == word(Word::Eq, word(Word::NewFalse, word(Word::Semi, word(Word::LetWord, rest)))),
        forall|rest: Words| #[trigger] spelled("let is_ready = if let ::core::option::Option::Some("@, rest) == word(Word::LetWord, word(Word::IsReady, word(Word::Eq, word(Word::IfWord, word(Word::LetWord, word(Word::SomeOpen, rest)))))),
        forall|rest: Words| #[trigger] spelled("{ ::join_me_maybe::_impl::yield_once().await; } } }"@, rest) == word(Word::BraceOpen, word(Word::YieldOnce, word(Word::Semi, word(Word::BraceClose, word(Word::BraceClose, word(Word::BraceClose, rest)))))),
        forall|rest: Words| #[trigger] spelled(".fetch_add(1, ::core::sync::atomic::Ordering::Relaxed);"@, rest) == word(Word::AddOne, word(Word::Semi, rest)),
        forall|rest: Words| #[trigger] spelled("= ::core::sync::atomic::AtomicBool::new(false); let mut"@, rest) == word(Word::Eq, word(Word::NewFalse, word(Word::Semi, word(Word::LetWord, word(Word::MutWord, rest))))),
{
    reveal(spelled);
    reveal_strlit("= ::join_me_maybe::_impl::AtomicRefCell::new(");
    reveal_strlit(".load(::core::sync::atomic::Ordering::Relaxed)");
    reveal_strlit(".take().expect(\"this arm can't be cancelled\"),");
    reveal_strlit("= &::join_me_maybe::_impl::new_canceller_mut(&");
    reveal_strlit("{ ::join_me_maybe::_impl::yield_once().await; }");
    reveal_strlit(").await { ::core::task::Poll::Ready(output) => {");
    reveal_strlit(".borrow_mut().set(::core::option::Option::None);");
    reveal_strlit(".load(::core::sync::atomic::Ordering::Relaxed) {");
    reveal_strlit("true } ::core::task::Poll::Pending => false, } }");
    reveal_strlit(".load(::core::sync::atomic::Ordering::Relaxed) ==");
    reveal_strlit("= ::core::pin::pin!(::core::option::Option::Some(");
    reveal_strlit("= ::core::sync::atomic::AtomicBool::new(false); let");
    reveal_strlit("let is_ready = if let ::core::option::Option::Some(");
    reveal_strlit("{ ::join_me_maybe::_impl::yield_once().await; } } }");
    reveal_strlit(".fetch_add(1, ::core::sync::atomic::Ordering::Relaxed);");
    reveal_strlit("= ::core::sync::atomic::AtomicBool::new(false); let mut");
    reveal_strlit("= None; } if let ::core::option::Option::Some(future) =");
    assert(".take().expect(\"this arm can't be cancelled\"),"@[1] != ".load(::core::sync::atomic::Ordering::Relaxed)"@[1]);
    assert("= &::join_me_maybe::_impl::new_canceller_mut(&"@[0] != ".load(::core::sync::atomic::Ordering::Relaxed)"@[0]);
    assert("= &::join_me_maybe::_impl::new_canceller_mut(&"@[0] != ".take().expect(\"this arm can't be cancelled\"),"@[0]);
    assert(".borrow_mut().set(::core::option::Option::None);"@[0] != ").await { ::core::task::Poll::Ready(output) => {"@[0]);
    assert(".load(::core::sync::atomic::Ordering::Relaxed) {"@[0] != ").await { ::core::task::Poll::Ready(output) => {"@[0]);
    assert(".load(::core::sync::atomic::Ordering::Relaxed) {"@[1] != ".borrow_mut().set(::core::option::Option::None);"@[1]);
    assert("true } ::core::task::Poll::Pending => false, } }"@[0] != ").await { ::core::task::Poll::Ready(output) => {"@[0]);
    assert("true } ::core::task::Poll::Pending => false, } }"@[0] != ".borrow_mut().set(::core::option::Option::None);"@[0]);
    assert("true } ::core::task::Poll::Pending => false, } }"@[0] != ".load(::core::sync::atomic::Ordering::Relaxed) {"@[0]);
    assert("= ::core::pin::pin!(::core::option::Option::Some("@[0] != ".load(::core::sync::atomic::Ordering::Relaxed) =="@[0]);
    assert("let is_ready = if let ::core::option::Option::Some("@[0] != "= ::core::sync::atomic::AtomicBool::new(false); let"@[0]);
    assert("{ ::join_me_maybe::_impl::yield_once().await; } } }"@[0] != "= ::core::sync::atomic::AtomicBool::new(false); let"@[0]);
    assert("{ ::join_me_maybe::_impl::yield_once().await; } } }"@[0] != "let is_ready = if let ::core::option::Option::Some("@[0]);
    assert("= ::core::sync::atomic::AtomicBool::new(false); let mut"@[0] != ".fetch_add(1, ::core::sync::atomic::Ordering::Relaxed);"@[0]);
}

pub proof fn lemma_spelled_h()
    ensures
        forall|rest: Words| #[trigger] spelled("= None; } if let ::core::option::Option::Some(future) ="@, rest) == word(Word::Eq, word(Word::NoneWord, word(Word::Semi, word(Word::BraceClose, word(Word::IfWord, word(Word::LetWord, word(Word::SomeFuture, word(Word::Eq, rest)))))))),
        forall|rest: Words| #[trigger] spelled(".fetch_add(1, ::core::sync::atomic::Ordering::Relaxed); }"@, rest) == word(Word::AddOne, word(Word::Semi, word(Word::BraceClose, rest))),
        forall|rest: Words| #[trigger] spelled(".store(false, ::core::sync::atomic::Ordering::Relaxed); } else if"@, rest) == word(Word::StoreFalse, word(Word::Semi, word(Word::BraceClose, word(Word::ElseWord, word(Word::IfWord, rest))))),
        forall|rest: Words| #[trigger] spelled(".borrow_mut(); let is_ready = if let ::core::option::Option::Some("@, rest) == word(Word::BorrowMut, word(Word::Semi, word(Word::LetWord, word(Word::IsReady, word(Word::Eq, word(Word::IfWord, word(Word::LetWord, word(Word::SomeOpen, rest)))))))),
        forall|rest: Words| #[trigger] spelled(".is_some() { false } else { match ::join_me_maybe::_impl::PollNextOnce("@, rest) == word(Word::IsSome, word(Word::BraceOpen, word(Word::FalseWord, word(Word::BraceClose, word(Word::ElseWord, word(Word::BraceOpen, word(Word::MatchWord, word(Word::PollNextOnce, rest)))))))),
        forall|rest: Words| #[trigger] spelled(".is_some_and(|flag| flag.load(::core::sync::atomic::Ordering::Relaxed)))"@, rest) == word(Word::IsSomeAndLoad, word(Word::Close, rest)),
        forall|rest: Words| #[trigger] spelled("} else { false }; if is_ready { guard.set(::core::option::Option::None);"@, rest) == word(Word::BraceClose, word(Word::ElseWord, word(Word::BraceOpen, word(Word::FalseWord, word(Word::BraceClose, word(Word::Semi, word(Word::IfWord, word(Word::IsReady, word(Word::BraceOpen, word(Word::Guard, word(Word::SetNone, word(Word::Semi, rest)))))))))))),
        forall|rest: Words| #[trigger] spelled(").await { ::core::task::Poll::Ready(::core::option::Option::Some(item)) => {"@, rest) == word(Word::CloseAwait, word(Word::BraceOpen, word(Word::ReadySomeItem, word(Word::Arrow, word(Word::BraceOpen, rest))))),
        forall|rest: Words| #[trigger] spelled(".swap(true, ::core::sync::atomic::Ordering::Relaxed); if !already_finished {"@, rest) == word(Word::SwapTrue, word(Word::Semi, word(Word::IfWord, word(Word::Bang, word(Word::AlreadyFinished, word(Word::BraceOpen, rest)))))),
        forall|rest: Words| #[trigger] spelled("= ::core::sync::atomic::AtomicBool::new(false); #[allow(unused_variables)] let"@, rest) == word(Word::Eq, word(Word::NewFalse, word(Word::Semi, word(Word::AllowUnused, word(Word::LetWord, rest))))),
        forall|rest: Words| #[trigger] spelled("= ::core::option::Option::Some(item); false } ::core::task::Poll::Ready(None) => {"@, rest) == word(Word::Eq, word(Word::SomeItem, word(Word::Semi, word(Word::FalseWord, word(Word::BraceClose, word(Word::ReadyNone, word(Word::Arrow, word(Word::BraceOpen, rest)))))))),
        forall|rest: Words| #[trigger] spelled("= ::core::option::Option::Some(output); true } ::core::task::Poll::Pending => false, }"@, rest) == word(Word::Eq, word(Word::SomeOutput, word(Word::Semi, word(Word::TrueWord, word(Word::BraceClose, word(Word::Pending, word(Word::Arrow, word(Word::FalseWord, word(Word::Comma, word(Word::BraceClose, rest)))))))))),
        forall|rest: Words| #[trigger] spelled(".store(true, ::core::sync::atomic::Ordering::Relaxed); ::core::future::pending().await } }; let mut"@, rest) == word(Word::StoreTrue, word(Word::Semi, word(Word::PendingForever, word(Word::BraceClose, word(Word::BraceClose, word(Word::Semi, word(Word::LetWord, word(Word::MutWord, rest)))))))),
        forall|rest: Words| #[trigger] spelled(": ::core::option::Option<&::core::sync::atomic::AtomicBool> = ::core::option::Option::None; let mut"@, rest) == word(Word::Colon, word(Word::FlagType, word(Word::Eq, word(Word::NoneWord, word(Word::Semi, word(Word::LetWord, word(Word::MutWord, rest))))))),
        forall|rest: Words| #[trigger] spelled(".as_mut() { let poll = ::join_me_maybe::_impl::PollOnce(unsafe { ::core::pin::Pin::new_unchecked(future) }).await; if let ::core::task::Poll::Ready(output) = poll { return output; } else if"@, rest) == word(Word::AsMut, word(Word::BraceOpen, word(Word::LetWord, word(Word::PollWord, word(Word::Eq, word(Word::PollBody, word(Word::Semi, word(Word::IfWord, word(Word::LetWord, word(Word::ReadyOutput, word(Word::Eq, word(Word::PollWord, word(Word::BraceOpen, word(Word::ReturnWord, word(Word::OutputWord, word(Word::Semi, word(Word::BraceClose, word(Word::ElseWord, word(Word::IfWord, rest))))))))))))))))))),
{
    reveal(spelled);
    reveal_strlit(".fetch_add(1, ::core::sync::atomic::Ordering::Relaxed);");
    reveal_strlit("= ::core::sync::atomic::AtomicBool::new(false); let mut");
    reveal_strlit("= None; } if let ::core::option::Option::Some(future) =");
    reveal_strlit(".fetch_add(1, ::core::sync::atomic::Ordering::Relaxed); }");
    reveal_strlit(".store(false, ::core::sync::atomic::Ordering::Relaxed); } else if");
    reveal_strlit(".borrow_mut(); let is_ready = if let ::core::option::Option::Some(");
    reveal_strlit(".is_some() { false } else { match ::join_me_maybe::_impl::PollNextOnce(");
    reveal_strlit(".is_some_and(|flag| flag.load(::core::sync::atomic::Ordering::Relaxed)))");
    reveal_strlit("} else { false }; if is_ready { guard.set(::core::option::Option::None);");
    reveal_strlit(").await { ::core::task::Poll::Ready(::core::option::Option::Some(item)) => {");
    reveal_strlit(".swap(true, ::core::sync::atomic::Ordering::Relaxed); if !already_finished {");
    reveal_strlit("= ::core::sync::atomic::AtomicBool::new(false); #[allow(unused_variables)] let");
    reveal_strlit("= ::core::option::Option::Some(item); false } ::core::task::Poll::Ready(None) => {");
    reveal_strlit("= ::core::option::Option::Some(output); true } ::core::task::Poll::Pending => false, }");
    reveal_strlit(".store(true, ::core::sync::atomic::Ordering::Relaxed); ::core::future::pending().await } }; let mut");
    reveal_strlit(": ::core::option::Option<&::core::sync::atomic::AtomicBool> = ::core::option::Option::None; let mut");
    reveal_strlit(".as_mut() { let poll = ::join_me_maybe::_impl::PollOnce(unsafe { ::core::pin::Pin::new_unchecked(future) }).await; if let ::core::task::Poll::Ready(output) = poll { return output; } else if");
    assert("= None; } if let ::core::option::Option::Some(future) ="@[0] != ".fetch_add(1, ::core::sync::atomic::Ordering::Relaxed);"@[0]);
    assert("= None; } if let ::core::option::Option::Some(future) ="@[2] != "= ::core::sync::atomic::AtomicBool::new(false); let mut"@[2]);
    assert("} else { false }; if is_ready { guard.set(::core::option::Option::None);"@[0] != ".is_some_and(|flag| flag.load(::core::sync::atomic::Ordering::Relaxed)))"@[0]);
    assert(".swap(true, ::core::sync::atomic::Ordering::Relaxed); if !already_finished {"@[0] != ").await { ::core::task::Poll::Ready(::core::option::Option::Some(item)) => {"@[0]);
    assert(": ::core::option::Option<&::core::sync::atomic::AtomicBool> = ::core::option::Option::None; let mut"@[0] != ".store(true, ::core::sync::atomic::Ordering::Relaxed); ::core::future::pending().await } }; let mut"@[0]);
}

/// What each text of an expansion says.
pub proof fn lemma_spelled()
    ensures
        forall|rest: Words| #[trigger] spelled("!"@, rest) == word(Word::Bang, rest),
        forall|rest: Words| #[trigger] spelled("("@, rest) == word(Word::Open, rest),
        forall|rest: Words| #[trigger] spelled(")"@, rest) == word(Word::Close, rest),
        forall|rest: Words| #[trigger] spelled(","@, rest) == word(Word::Comma, rest),
        forall|rest: Words| #[trigger] spelled(";"@, rest) == word(Word::Semi, rest),
        forall|rest: Words| #[trigger] spelled("="@, rest) == word(Word::Eq, rest),
        forall|rest: Words| #[trigger] spelled("{"@, rest) == word(Word::BraceOpen, rest),
        forall|rest: Words| #[trigger] spelled("}"@, rest) == word(Word::BraceClose, rest),
        forall|rest: Words| #[trigger] spelled("&&"@, rest) == word(Word::AndAnd, rest),
        forall|rest: Words| #[trigger] spelled("(("@, rest) == word(Word::Open,
            word(Word::Open, rest)),
        forall|rest: Words| #[trigger] spelled("),"@, rest) == word(Word::Close,
            word(Word::Comma, rest)),
        forall|rest: Words| #[trigger] spelled(");"@, rest) == word(Word::Close,
            word(Word::Semi, rest)),
        forall|rest: Words| #[trigger] spelled("<="@, rest) == word(Word::AtMostWord, rest),
        forall|rest: Words| #[trigger] spelled("=="@, rest) == word(Word::EqEq, rest),
        forall|rest: Words| #[trigger] spelled("if"@, rest) == word(Word::IfWord, rest),
        forall|rest: Words| #[trigger] spelled("||"@, rest) == word(Word::OrOr, rest),
        forall|rest: Words| #[trigger] spelled("(),"@, rest) == word(Word::Open,
            word(Word::Close, word(Word::Comma, rest))),
        forall|rest: Words| #[trigger] spelled(") ="@, rest) == word(Word::Close,
            word(Word::Eq, rest)),
        forall|rest: Words| #[trigger] spelled(") {"@, rest) == word(Word::Close,
            word(Word::BraceOpen, rest)),
        forall|rest: Words| #[trigger] spelled("));"@, rest) == word(Word::Close,
            word(Word::Close, word(Word::Semi, rest))),
        forall|rest: Words| #[trigger] spelled(", &"@, rest) == word(Word::Comma,
            word(Word::Amp, rest)),
        forall|rest: Words| #[trigger] spelled(",);"@, rest) == word(Word::Comma,
            word(Word::Close, word(Word::Semi, rest))),
        forall|rest: Words| #[trigger] spelled("; }"@, rest) == word(Word::Semi,
            word(Word::BraceClose, rest)),
        forall|rest: Words| #[trigger] spelled("= {"@, rest) == word(Word::Eq,
            word(Word::BraceOpen, rest)),
        forall|rest: Words| #[trigger] spelled("> {"@, rest) == word(Word::Greater,
            word(Word::BraceOpen, rest)),
        forall|rest: Words| #[trigger] spelled("let"@, rest) == word(Word::LetWord, rest),
        forall|rest: Words| #[trigger] spelled("mod"@, rest) == word(Word::ModWord, rest),
        forall|rest: Words| #[trigger] spelled("} }"@, rest) == word(Word::BraceClose,
            word(Word::BraceClose, rest)),
        forall|rest: Words| #[trigger] spelled(") ||"@, rest) == word(Word::Close,
            word(Word::OrOr, rest)),
        forall|rest: Words| #[trigger] spelled("), &"@, rest) == word(Word::Close,
            word(Word::Comma, word(Word::Amp, rest))),
        forall|rest: Words| #[trigger] spelled("None"@, rest) == word(Word::NoneWord, rest),
        forall|rest: Words| #[trigger] spelled("if !"@, rest) == word(Word::IfWord,
            word(Word::Bang, rest)),
        forall|rest: Words| #[trigger] spelled("true"@, rest) == word(Word::TrueWord, rest),
        forall|rest: Words| #[trigger] spelled("drop("@, rest) == word(Word::DropOpen, rest),
        forall|rest: Words| #[trigger] spelled("false"@, rest) == word(Word::FalseWord, rest),
        forall|rest: Words| #[trigger] spelled("if !("@, rest) == word(Word::IfWord,
            word(Word::Bang, word(Word::Open, rest))),
        forall|rest: Words| #[trigger] spelled("{ let"@, rest) == word(Word::BraceOpen,
            word(Word::LetWord, rest)),
        forall|rest: Words| #[trigger] spelled("); } }"@, rest) == word(Word::Close,
            word(Word::Semi, word(Word::BraceClose, word(Word::BraceClose, rest)))),
        forall|rest: Words| #[trigger] spelled("loop {"@, rest) == word(Word::LoopWord,
            word(Word::BraceOpen, rest)),
        forall|rest: Words| #[trigger] spelled("{ if !"@, rest) == word(Word::BraceOpen,
            word(Word::IfWord, word(Word::Bang, rest))),
        forall|rest: Words| #[trigger] spelled(")); let"@, rest) == word(Word::Close,
            word(Word::Close, word(Word::Semi, word(Word::LetWord, rest)))),
        forall|rest: Words| #[trigger] spelled("= None;"@, rest) == word(Word::Eq,
            word(Word::NoneWord, word(Word::Semi, rest))),
        forall|rest: Words| #[trigger] spelled("= true;"@, rest) == word(Word::Eq,
            word(Word::TrueWord, word(Word::Semi, rest))),
        forall|rest: Words| #[trigger] spelled("break ("@, rest) == word(Word::BreakWord,
            word(Word::Open, rest)),
        forall|rest: Words| #[trigger] spelled("let mut"@, rest) == word(Word::LetWord,
            word(Word::MutWord, rest)),
        forall|rest: Words| #[trigger] spelled(".take(),"@, rest) == word(Word::Take,
            word(Word::Comma, rest)),
        forall|rest: Words| #[trigger] spelled("= false;"@, rest) == word(Word::Eq,
            word(Word::FalseWord, word(Word::Semi, rest))),
        forall|rest: Words| #[trigger] spelled("=> { let"@, rest) == word(Word::Arrow,
            word(Word::BraceOpen, word(Word::LetWord, rest))),
        forall|rest: Words| #[trigger] spelled("{ loop {"@, rest) == word(Word::BraceOpen,
            word(Word::LoopWord, word(Word::BraceOpen, rest))),
        forall|rest: Words| #[trigger] spelled("(item)));"@, rest) == word(Word::Open,
            word(Word::ItemWord, word(Word::Close, word(Word::Close, word(Word::Close,
            word(Word::Semi, rest)))))),
        forall|rest: Words| #[trigger] spelled(", None, &"@, rest) == word(Word::Comma,
            word(Word::NoneWord, word(Word::Comma, word(Word::Amp, rest)))),
        forall|rest: Words| #[trigger] spelled(".take() {"@, rest) == word(Word::Take,
            word(Word::BraceOpen, rest)),
        forall|rest: Words| #[trigger] spelled("= 0usize;"@, rest) == word(Word::Eq,
            word(Word::Zero, word(Word::Semi, rest))),
        forall|rest: Words| #[trigger] spelled("= async |"@, rest) == word(Word::Eq,
            word(Word::AsyncWord, word(Word::Bar, rest))),
        forall|rest: Words| #[trigger] spelled("= true; }"@, rest) == word(Word::Eq,
            word(Word::TrueWord, word(Word::Semi, word(Word::BraceClose, rest)))),
        forall|rest: Words| #[trigger] spelled("loop { if"@, rest) == word(Word::LoopWord,
            word(Word::BraceOpen, word(Word::IfWord, rest))),
        forall|rest: Words| #[trigger] spelled("| { match"@, rest) == word(Word::Bar,
            word(Word::BraceOpen, word(Word::MatchWord, rest))),
        forall|rest: Words| #[trigger] spelled(".is_none()"@, rest) == word(Word::IsNone, rest),
        forall|rest: Words| #[trigger] spelled(".is_some()"@, rest) == word(Word::IsSome, rest),
        forall|rest: Words| #[trigger] spelled("break; } }"@, rest) == word(Word::BreakWord,
            word(Word::Semi, word(Word::BraceClose, word(Word::BraceClose, rest)))),
        forall|rest: Words| #[trigger] spelled("{ break; }"@, rest) == word(Word::BraceOpen,
            word(Word::BreakWord, word(Word::Semi, word(Word::BraceClose, rest)))),
        forall|rest: Words| #[trigger] spelled("; continue;"@, rest) == word(Word::Semi,
            word(Word::ContinueWord, word(Word::Semi, rest))),
        forall|rest: Words| #[trigger] spelled("); } else if"@, rest) == word(Word::Close,
            word(Word::Semi, word(Word::BraceClose, word(Word::ElseWord,
            word(Word::IfWord, rest))))),
        forall|rest: Words| #[trigger] spelled("+ 1; break; }"@, rest) == word(Word::Plus,
            word(Word::One, word(Word::Semi, word(Word::BreakWord, word(Word::Semi,
            word(Word::BraceClose, rest)))))),
        forall|rest: Words| #[trigger] spelled(".is_some() &&"@, rest) == word(Word::IsSome,
            word(Word::AndAnd, rest)),
        forall|rest: Words| #[trigger] spelled("::ArmsInput::"@, rest) == word(Word::ArmsInput, rest),
        forall|rest: Words| #[trigger] spelled("= None; drop("@, rest) == word(Word::Eq,
            word(Word::NoneWord, word(Word::Semi, word(Word::DropOpen, rest)))),
        forall|rest: Words| #[trigger] spelled(") { break; } }"@, rest) == word(Word::Close,
            word(Word::BraceOpen, word(Word::BreakWord, word(Word::Semi,
            word(Word::BraceClose, word(Word::BraceClose, rest)))))),
        forall|rest: Words| #[trigger] spelled("); } else if !"@, rest) == word(Word::Close,
            word(Word::Semi, word(Word::BraceClose, word(Word::ElseWord, word(Word::IfWord,
            word(Word::Bang, rest)))))),
        forall|rest: Words| #[trigger] spelled("= false; } } }"@, rest) == word(Word::Eq,
            word(Word::FalseWord, word(Word::Semi, word(Word::BraceClose,
            word(Word::BraceClose, word(Word::BraceClose, rest)))))),
        forall|rest: Words| #[trigger] spelled(".is_none() && ("@, rest) == word(Word::IsNone, word(Word::AndAnd, word(Word::Open, rest))),
        forall|rest: Words| #[trigger] spelled("= false; let mut"@, rest) == word(Word::Eq,
            word(Word::FalseWord, word(Word::Semi, word(Word::LetWord,
            word(Word::MutWord, rest))))),
        forall|rest: Words| #[trigger] spelled("= 0usize; let mut"@, rest) == word(Word::Eq,
            word(Word::Zero, word(Word::Semi, word(Word::LetWord, word(Word::MutWord, rest))))),
        forall|rest: Words| #[trigger] spelled("{ let mut guard ="@, rest) == word(Word::BraceOpen, word(Word::LetWord, word(Word::MutWord, word(Word::Guard, word(Word::Eq, rest))))),
        forall|rest: Words| #[trigger] spelled(") => { let _: () ="@, rest) == word(Word::Close, word(Word::Arrow, word(Word::BraceOpen, word(Word::LetUnit, rest)))),
        forall|rest: Words| #[trigger] spelled(".borrow().is_some()"@, rest) == word(Word::Borrow, word(Word::IsSome, rest)),
        forall|rest: Words| #[trigger] spelled("{ pub enum ArmsInput<"@, rest) == word(Word::BraceOpen, word(Word::EnumArmsInput, word(Word::Less, rest))),
        forall|rest: Words| #[trigger] spelled("{ } else { break; } }"@, rest) == word(Word::BraceOpen, word(Word::BraceClose, word(Word::ElseWord, word(Word::BraceOpen, word(Word::BreakWord, word(Word::Semi, word(Word::BraceClose, word(Word::BraceClose, rest)))))))),
        forall|rest: Words| #[trigger] spelled("let already_finished ="@, rest) == word(Word::LetWord, word(Word::AlreadyFinished, word(Word::Eq, rest))),
        forall|rest: Words| #[trigger] spelled(".is_none() { break; } }"@, rest) == word(Word::IsNone, word(Word::BraceOpen, word(Word::BreakWord, word(Word::Semi, word(Word::BraceClose, word(Word::BraceClose, rest)))))),
        forall|rest: Words| #[trigger] spelled(".as_mut().as_pin_mut() {"@, rest) == word(Word::AsPinMut, word(Word::BraceOpen, rest)),
        forall|rest: Words| #[trigger] spelled("#[allow(unused_variables)] let"@, rest) == word(Word::AllowUnused, word(Word::LetWord, rest)),
        forall|rest: Words| #[trigger] spelled("::core::option::Option::Some(&"@, rest) == word(Word::SomeOpen, word(Word::Amp, rest)),
        forall|rest: Words| #[trigger] spelled("} #[allow(unreachable_code)] {"@, rest) == word(Word::BraceClose, word(Word::AllowUnreachable, word(Word::BraceOpen, rest))),
        forall|rest: Words| #[trigger] spelled("= ::core::option::Option::None;"@, rest) == word(Word::Eq, word(Word::NoneWord, word(Word::Semi, rest))),
        forall|rest: Words| #[trigger] spelled("= ::core::option::Option::Some("@, rest) == word(Word::Eq, word(Word::SomeOpen, rest)),
        forall|rest: Words| #[trigger] spelled("} else { false }; if is_ready {"@, rest) == word(Word::BraceClose, word(Word::ElseWord, word(Word::BraceOpen, word(Word::FalseWord, word(Word::BraceClose, word(Word::Semi, word(Word::IfWord, word(Word::IsReady, word(Word::BraceOpen, rest))))))))),
        forall|rest: Words| #[trigger] spelled("}; #[allow(unreachable_code)] {"@, rest) == word(Word::BraceClose, word(Word::Semi, word(Word::AllowUnreachable, word(Word::BraceOpen, rest)))),
        forall|rest: Words| #[trigger] spelled(", ::core::option::Option::Some(&"@, rest) == word(Word::Comma, word(Word::SomeOpen, word(Word::Amp, rest))),
        forall|rest: Words| #[trigger] spelled(") = guard.as_mut().as_pin_mut() {"@, rest) == word(Word::Close, word(Word::Eq, word(Word::Guard, word(Word::AsPinMut, word(Word::BraceOpen, rest))))),
        forall|rest: Words| #[trigger] spelled(".set(::core::option::Option::None);"@, rest) == word(Word::SetNone, word(Word::Semi, rest)),
        forall|rest: Words| #[trigger] spelled("= ::core::option::Option::None; let mut"@, rest) == word(Word::Eq, word(Word::NoneWord, word(Word::Semi, word(Word::LetWord, word(Word::MutWord, rest))))),
        forall|rest: Words| #[trigger] spelled("match ::join_me_maybe::_impl::PollOnce("@, rest) == word(Word::MatchWord, word(Word::PollOnce, rest)),
        forall|rest: Words| #[trigger] spelled("= &::join_me_maybe::_impl::new_canceller(&"@, rest) == word(Word::Eq, word(Word::Amp, word(Word::NewCanceller, word(Word::Amp, rest)))),
        forall|rest: Words| #[trigger] spelled("if let ::core::option::Option::Some(item) ="@, rest) == word(Word::IfWord, word(Word::LetWord, word(Word::SomeItem, word(Word::Eq, rest)))),
        forall|rest: Words| #[trigger] spelled("= ::core::sync::atomic::AtomicUsize::new(0);"@, rest) == word(Word::Eq, word(Word::NewZero, word(Word::Semi, rest))),
        forall|rest: Words| #[trigger] spelled("= ::join_me_maybe::_impl::AtomicRefCell::new("@, rest) == word(Word::Eq, word(Word::NewCell, rest)),
        forall|rest: Words| #[trigger] spelled(".load(::core::sync::atomic::Ordering::Relaxed)"@, rest) == word(Word::Load, rest),
        forall|rest: Words| #[trigger] spelled(".take().expect(\"this arm can't be cancelled\"),"@, rest) == word(Word::Take, word(Word::Expect, word(Word::Comma, rest))),
        forall|rest: Words| #[trigger] spelled("= &::join_me_maybe::_impl::new_canceller_mut(&"@, rest) == word(Word::Eq, word(Word::Amp, word(Word::NewCancellerMut, word(Word::Amp, rest)))),
        forall|rest: Words| #[trigger] spelled("{ ::join_me_maybe::_impl::yield_once().await; }"@, rest) == word(Word::BraceOpen, word(Word::YieldOnce, word(Word::Semi, word(Word::BraceClose, rest)))),
        forall|rest: Words| #[trigger] spelled(").await { ::core::task::Poll::Ready(output) => {"@, rest) == word(Word::CloseAwait, word(Word::BraceOpen, word(Word::ReadyOutput, word(Word::Arrow, word(Word::BraceOpen, rest))))),
        forall|rest: Words| #[trigger] spelled(".borrow_mut().set(::core::option::Option::None);"@, rest) == word(Word::BorrowMut, word(Word::SetNone, word(Word::Semi, rest))),
        forall|rest: Words| #[trigger] spelled(".load(::core::sync::atomic::Ordering::Relaxed) {"@, rest) == word(Word::Load, word(Word::BraceOpen, rest)),
        forall|rest: Words| #[trigger] spelled("true } ::core::task::Poll::Pending => false, } }"@, rest) == word(Word::TrueWord, word(Word::BraceClose, word(Word::Pending, word(Word::Arrow, word(Word::FalseWord, word(Word::Comma, word(Word::BraceClose, word(Word::BraceClose, rest)))))))),
        forall|rest: Words| #[trigger] spelled(".load(::core::sync::atomic::Ordering::Relaxed) =="@, rest) == word(Word::Load, word(Word::EqEq, rest)),
        forall|rest: Words| #[trigger] spelled("= ::core::pin::pin!(::core::option::Option::Some("@, rest) == word(Word::Eq, word(Word::PinSome, rest)),
        forall|rest: Words| #[trigger] spelled("= ::core::sync::atomic::AtomicBool::new(false); let"@, rest) == word(Word::Eq, word(Word::NewFalse, word(Word::Semi, word(Word::LetWord, rest)))),
        forall|rest: Words| #[trigger] spelled("let is_ready = if let ::core::option::Option::Some("@, rest) == word(Word::LetWord, word(Word::IsReady, word(Word::Eq, word(Word::IfWord, word(Word::LetWord, word(Word::SomeOpen, rest)))))),
        forall|rest: Words| #[trigger] spelled("{ ::join_me_maybe::_impl::yield_once().await; } } }"@, rest) == word(Word::BraceOpen, word(Word::YieldOnce, word(Word::Semi, word(Word::BraceClose, word(Word::BraceClose, word(Word::BraceClose, rest)))))),
        forall|rest: Words| #[trigger] spelled(".fetch_add(1, ::core::sync::atomic::Ordering::Relaxed);"@, rest) == word(Word::AddOne, word(Word::Semi, rest)),
        forall|rest: Words| #[trigger] spelled("= ::core::sync::atomic::AtomicBool::new(false); let mut"@, rest) == word(Word::Eq, word(Word::NewFalse, word(Word::Semi, word(Word::LetWord, word(Word::MutWord, rest))))),
        forall|rest: Words| #[trigger] spelled("= None; } if let ::core::option::Option::Some(future) ="@, rest) == word(Word::Eq, word(Word::NoneWord, word(Word::Semi, word(Word::BraceClose, word(Word::IfWord, word(Word::LetWord, word(Word::SomeFuture, word(Word::Eq, rest)))))))),
        forall|rest: Words| #[trigger] spelled(".fetch_add(1, ::core::sync::atomic::Ordering::Relaxed); }"@, rest) == word(Word::AddOne, word(Word::Semi, word(Word::BraceClose, rest))),
        forall|rest: Words| #[trigger] spelled(".store(false, ::core::sync::atomic::Ordering::Relaxed); } else if"@, rest) == word(Word::StoreFalse, word(Word::Semi, word(Word::BraceClose, word(Word::ElseWord, word(Word::IfWord, rest))))),
        forall|rest: Words| #[trigger] spelled(".borrow_mut(); let is_ready = if let ::core::option::Option::Some("@, rest) == word(Word::BorrowMut, word(Word::Semi, word(Word::LetWord, word(Word::IsReady, word(Word::Eq, word(Word::IfWord, word(Word::LetWord, word(Word::SomeOpen, rest)))))))),
        forall|rest: Words| #[trigger] spelled(".is_some() { false } else { match ::join_me_maybe::_impl::PollNextOnce("@, rest) == word(Word::IsSome, word(Word::BraceOpen, word(Word::FalseWord, word(Word::BraceClose, word(Word::ElseWord, word(Word::BraceOpen, word(Word::MatchWord, word(Word::PollNextOnce, rest)))))))),
        forall|rest: Words| #[trigger] spelled(".is_some_and(|flag| flag.load(::core::sync::atomic::Ordering::Relaxed)))"@, rest) == word(Word::IsSomeAndLoad, word(Word::Close, rest)),
        forall|rest: Words| #[trigger] spelled("} else { false }; if is_ready { guard.set(::core::option::Option::None);"@, rest) == word(Word::BraceClose, word(Word::ElseWord, word(Word::BraceOpen, word(Word::FalseWord, word(Word::BraceClose, word(Word::Semi, word(Word::IfWord, word(Word::IsReady, word(Word::BraceOpen, word(Word::Guard, word(Word::SetNone, word(Word::Semi, rest)))))))))))),
        forall|rest: Words| #[trigger] spelled(").await { ::core::task::Poll::Ready(::core::option::Option::Some(item)) => {"@, rest) == word(Word::CloseAwait, word(Word::BraceOpen, word(Word::ReadySomeItem, word(Word::Arrow, word(Word::BraceOpen, rest))))),
        forall|rest: Words| #[trigger] spelled(".swap(true, ::core::sync::atomic::Ordering::Relaxed); if !already_finished {"@, rest) == word(Word::SwapTrue, word(Word::Semi, word(Word::IfWord, word(Word::Bang, word(Word::AlreadyFinished, word(Word::BraceOpen, rest)))))),
        forall|rest: Words| #[trigger] spelled("= ::core::sync::atomic::AtomicBool::new(false); #[allow(unused_variables)] let"@, rest) == word(Word::Eq, word(Word::NewFalse, word(Word::Semi, word(Word::AllowUnused, word(Word::LetWord, rest))))),
        forall|rest: Words| #[trigger] spelled("= ::core::option::Option::Some(item); false } ::core::task::Poll::Ready(None) => {"@, rest) == word(Word::Eq, word(Word::SomeItem, word(Word::Semi, word(Word::FalseWord, word(Word::BraceClose, word(Word::ReadyNone, word(Word::Arrow, word(Word::BraceOpen, rest)))))))),
        forall|rest: Words| #[trigger] spelled("= ::core::option::Option::Some(output); true } ::core::task::Poll::Pending => false, }"@, rest) == word(Word::Eq, word(Word::SomeOutput, word(Word::Semi, word(Word::TrueWord, word(Word::BraceClose, word(Word::Pending, word(Word::Arrow, word(Word::FalseWord, word(Word::Comma, word(Word::BraceClose, rest)))))))))),
        forall|rest: Words| #[trigger] spelled(".store(true, ::core::sync::atomic::Ordering::Relaxed); ::core::future::pending().await } }; let mut"@, rest) == word(Word::StoreTrue, word(Word::Semi, word(Word::PendingForever, word(Word::BraceClose, word(Word::BraceClose, word(Word::Semi, word(Word::LetWord, word(Word::MutWord, rest)))))))),
        forall|rest: Words| #[trigger] spelled(": ::core::option::Option<&::core::sync::atomic::AtomicBool> = ::core::option::Option::None; let mut"@, rest) == word(Word::Colon, word(Word::FlagType, word(Word::Eq, word(Word::NoneWord, word(Word::Semi, word(Word::LetWord, word(Word::MutWord, rest))))))),
        forall|rest: Words| #[trigger] spelled(".as_mut() { let poll = ::join_me_maybe::_impl::PollOnce(unsafe { ::core::pin::Pin::new_unchecked(future) }).await; if let ::core::task::Poll::Ready(output) = poll { return output; } else if"@, rest) == word(Word::AsMut, word(Word::BraceOpen, word(Word::LetWord, word(Word::PollWord, word(Word::Eq, word(Word::PollBody, word(Word::Semi, word(Word::IfWord, word(Word::LetWord, word(Word::ReadyOutput, word(Word::Eq, word(Word::PollWord, word(Word::BraceOpen, word(Word::ReturnWord, word(Word::OutputWord, word(Word::Semi, word(Word::BraceClose, word(Word::ElseWord, word(Word::IfWord, rest))))))))))))))))))),
{
    lemma_spelled_a();
    lemma_spelled_b();
    lemma_spelled_c();
    lemma_spelled_d();
    lemma_spelled_e();
    lemma_spelled_f();
    lemma_spelled_g();
    lemma_spelled_h();
}

} // verus!
