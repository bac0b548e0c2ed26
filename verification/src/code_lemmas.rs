//! How each form of the syntax trees is spelled, one fact for each form.

use vstd::prelude::*;

use crate::code::{
    BodyArms, Cond, Do, Handle, Params, Place, Returns, Stmt, Value, Variants, Verdict,
};
use crate::code;
use crate::expansion::Name;
use crate::syntax::Region;
use crate::words::{Word, Words};
use crate::words;

verus! {

pub broadcast proof fn lemma_cond_count_is(name: Name, n: usize, rest: Words)
    ensures
        #[trigger] code::cond_text(Cond::CountIs(name, n), rest) == words::word(
            Word::Open,
            code::id(
                name,
                words::word(
                    Word::Load,
                    words::word(
                        Word::EqEq,
                        words::word(Word::Number(n), words::word(Word::Close, rest)),
                    ),
                ),
            ),
        ),
{
    reveal_with_fuel(code::cond_text, 2);
}

pub broadcast proof fn lemma_cond_flag(name: Name, rest: Words)
    ensures
        #[trigger] code::cond_text(Cond::Flag(name), rest) == code::id(name, words::word(Word::Load, rest)),
{
    reveal_with_fuel(code::cond_text, 2);
}

pub broadcast proof fn lemma_cond_var(name: Name, rest: Words)
    ensures
        #[trigger] code::cond_text(Cond::Var(name), rest) == code::id(name, rest),
{
    reveal_with_fuel(code::cond_text, 2);
}

pub broadcast proof fn lemma_cond_is_ready(rest: Words)
    ensures
        #[trigger] code::cond_text(Cond::IsReady, rest) == words::word(Word::IsReady, rest),
{
    reveal_with_fuel(code::cond_text, 2);
}

pub broadcast proof fn lemma_cond_already_finished(rest: Words)
    ensures
        #[trigger] code::cond_text(Cond::AlreadyFinished, rest) == words::word(Word::AlreadyFinished, rest),
{
    reveal_with_fuel(code::cond_text, 2);
}

pub broadcast proof fn lemma_cond_filled(name: Name, rest: Words)
    ensures
        #[trigger] code::cond_text(Cond::Filled(name), rest) == code::id(name, words::word(Word::IsSome, rest)),
{
    reveal_with_fuel(code::cond_text, 2);
}

pub broadcast proof fn lemma_cond_empty(name: Name, rest: Words)
    ensures
        #[trigger] code::cond_text(Cond::Empty(name), rest) == code::id(name, words::word(Word::IsNone, rest)),
{
    reveal_with_fuel(code::cond_text, 2);
}

pub broadcast proof fn lemma_cond_cell_filled(name: Name, rest: Words)
    ensures
        #[trigger] code::cond_text(Cond::CellFilled(name), rest) == code::id(
            name,
            words::word(Word::Borrow, words::word(Word::IsSome, rest)),
        ),
{
    reveal_with_fuel(code::cond_text, 2);
}

pub broadcast proof fn lemma_cond_flag_of(name: Name, rest: Words)
    ensures
        #[trigger] code::cond_text(Cond::FlagOf(name), rest) == code::id(name, words::word(Word::IsSomeAndLoad, rest)),
{
    reveal_with_fuel(code::cond_text, 2);
}

pub broadcast proof fn lemma_cond_at_most(name: Name, n: usize, rest: Words)
    ensures
        #[trigger] code::cond_text(Cond::AtMost(name, n), rest) == code::id(
            name,
            words::word(Word::AtMostWord, words::word(Word::Number(n), rest)),
        ),
{
    reveal_with_fuel(code::cond_text, 2);
}

pub broadcast proof fn lemma_cond_equals(name: Name, n: usize, rest: Words)
    ensures
        #[trigger] code::cond_text(Cond::Equals(name, n), rest) == code::id(
            name,
            words::word(Word::EqEq, words::word(Word::Number(n), rest)),
        ),
{
    reveal_with_fuel(code::cond_text, 2);
}

pub broadcast proof fn lemma_cond_not(c: Cond, rest: Words)
    ensures
        #[trigger] code::cond_text(Cond::Not(Box::new(c)), rest) == words::word(Word::Bang, code::cond_text(c, rest)),
{
    reveal_with_fuel(code::cond_text, 2);
}

pub broadcast proof fn lemma_cond_and(c: Cond, d: Cond, rest: Words)
    ensures
        #[trigger] code::cond_text(Cond::And(Box::new(c), Box::new(d)), rest) == code::cond_text(c, words::word(Word::AndAnd, code::cond_text(d, rest))),
{
    reveal_with_fuel(code::cond_text, 2);
}

pub broadcast proof fn lemma_cond_or(c: Cond, d: Cond, rest: Words)
    ensures
        #[trigger] code::cond_text(Cond::Or(Box::new(c), Box::new(d)), rest) == code::cond_text(c, words::word(Word::OrOr, code::cond_text(d, rest))),
{
    reveal_with_fuel(code::cond_text, 2);
}

pub broadcast proof fn lemma_cond_paren(c: Cond, rest: Words)
    ensures
        #[trigger] code::cond_text(Cond::Paren(Box::new(c)), rest) == words::word(Word::Open, code::cond_text(c, words::word(Word::Close, rest))),
{
    reveal_with_fuel(code::cond_text, 2);
}

pub broadcast proof fn lemma_value_bool(b: bool, rest: Words)
    ensures
        #[trigger] code::value_text(Value::Bool(b), rest) == code::bool_text(b, rest),
{
    reveal(code::value_text);
}

pub broadcast proof fn lemma_value_nothing(rest: Words)
    ensures
        #[trigger] code::value_text(Value::Nothing, rest) == words::word(Word::NoneWord, rest),
{
    reveal(code::value_text);
}

pub broadcast proof fn lemma_value_zero(rest: Words)
    ensures
        #[trigger] code::value_text(Value::Zero, rest) == words::word(Word::Zero, rest),
{
    reveal(code::value_text);
}

pub broadcast proof fn lemma_value_number(n: usize, rest: Words)
    ensures
        #[trigger] code::value_text(Value::Number(n), rest) == words::word(Word::Number(n), rest),
{
    reveal(code::value_text);
}

pub broadcast proof fn lemma_value_number_after(n: usize, rest: Words)
    ensures
        #[trigger] code::value_text(Value::NumberAfter(n), rest) == words::word(
            Word::Number(n),
            words::word(Word::Plus, words::word(Word::One, rest)),
        ),
{
    reveal(code::value_text);
}

pub broadcast proof fn lemma_value_copy(name: Name, rest: Words)
    ensures
        #[trigger] code::value_text(Value::Copy(name), rest) == code::id(name, rest),
{
    reveal(code::value_text);
}

pub broadcast proof fn lemma_value_output(rest: Words)
    ensures
        #[trigger] code::value_text(Value::Output, rest) == words::word(Word::SomeOutput, rest),
{
    reveal(code::value_text);
}

pub broadcast proof fn lemma_value_item(rest: Words)
    ensures
        #[trigger] code::value_text(Value::Item, rest) == words::word(Word::SomeItem, rest),
{
    reveal(code::value_text);
}

pub broadcast proof fn lemma_value_flag_ref(name: Name, rest: Words)
    ensures
        #[trigger] code::value_text(Value::FlagRef(name), rest) == words::word(
            Word::SomeOpen,
            words::word(Word::Amp, code::id(name, words::word(Word::Close, rest))),
        ),
{
    reveal(code::value_text);
}

pub broadcast proof fn lemma_value_run(function: Name, module: Name, variant: Name, rest: Words)
    ensures
        #[trigger] code::value_text(Value::Run(function, module, variant), rest) == words::word(
            Word::SomeOpen,
            code::id(
                function,
                words::word(
                    Word::Open,
                    code::id(
                        module,
                        words::word(
                            Word::ArmsInput,
                            code::id(
                                variant,
                                words::word(
                                    Word::Open,
                                    words::word(
                                        Word::ItemWord,
                                        words::word(
                                            Word::Close,
                                            words::word(
                                                Word::Close,
                                                words::word(Word::Close, rest),
                                            ),
                                        ),
                                    ),
                                ),
                            ),
                        ),
                    ),
                ),
            ),
        ),
{
    reveal(code::value_text);
}

pub broadcast proof fn lemma_value_run_finally(
    function: Name,
    module: Name,
    variant: Name,
    rest: Words,
)
    ensures
        #[trigger] code::value_text(Value::RunFinally(function, module, variant), rest) == words::word(
            Word::SomeOpen,
            code::id(
                function,
                words::word(
                    Word::Open,
                    code::id(
                        module,
                        words::word(
                            Word::ArmsInput,
                            code::id(
                                variant,
                                words::word(Word::Close, words::word(Word::Close, rest)),
                            ),
                        ),
                    ),
                ),
            ),
        ),
{
    reveal(code::value_text);
}

pub broadcast proof fn lemma_value_new_flag(rest: Words)
    ensures
        #[trigger] code::value_text(Value::NewFlag, rest) == words::word(Word::NewFalse, rest),
{
    reveal(code::value_text);
}

pub broadcast proof fn lemma_value_new_count(rest: Words)
    ensures
        #[trigger] code::value_text(Value::NewCount, rest) == words::word(Word::NewZero, rest),
{
    reveal(code::value_text);
}

pub broadcast proof fn lemma_do_assign(name: Name, value: Value, rest: Words)
    ensures
        #[trigger] code::do_text(Do::Assign(name, value), rest) == code::id(name, words::word(Word::Eq, code::value_text(value, code::semi(rest)))),
{
    reveal(code::do_text);
}

pub broadcast proof fn lemma_do_let(name: Name, value: Value, rest: Words)
    ensures
        #[trigger] code::do_text(Do::Let(name, value), rest) == words::word(
            Word::LetWord,
            code::id(name, words::word(Word::Eq, code::value_text(value, code::semi(rest)))),
        ),
{
    reveal(code::do_text);
}

pub broadcast proof fn lemma_do_let_mut(name: Name, value: Value, rest: Words)
    ensures
        #[trigger] code::do_text(Do::LetMut(name, value), rest) == words::word(
            Word::LetWord,
            words::word(
                Word::MutWord,
                code::id(name, words::word(Word::Eq, code::value_text(value, code::semi(rest)))),
            ),
        ),
{
    reveal(code::do_text);
}

pub broadcast proof fn lemma_do_let_mut_flag_ref(name: Name, value: Value, rest: Words)
    ensures
        #[trigger] code::do_text(Do::LetMutFlagRef(name, value), rest) == words::word(
            Word::LetWord,
            words::word(
                Word::MutWord,
                code::id(
                    name,
                    words::word(
                        Word::Colon,
                        words::word(
                            Word::FlagType,
                            words::word(Word::Eq, code::value_text(value, code::semi(rest))),
                        ),
                    ),
                ),
            ),
        ),
{
    reveal(code::do_text);
}

pub broadcast proof fn lemma_do_store(name: Name, b: bool, rest: Words)
    ensures
        #[trigger] code::do_text(Do::Store(name, b), rest) == code::id(
            name,
            words::word(
                if b {
                    Word::StoreTrue
                } else {
                    Word::StoreFalse
                },
                code::semi(rest),
            ),
        ),
{
    reveal(code::do_text);
}

pub broadcast proof fn lemma_do_add_one(name: Name, rest: Words)
    ensures
        #[trigger] code::do_text(Do::AddOne(name), rest) == code::id(name, words::word(Word::AddOne, code::semi(rest))),
{
    reveal(code::do_text);
}

pub broadcast proof fn lemma_do_swap(name: Name, rest: Words)
    ensures
        #[trigger] code::do_text(Do::Swap(name), rest) == words::word(
            Word::LetWord,
            words::word(
                Word::AlreadyFinished,
                words::word(Word::Eq, code::id(name, words::word(Word::SwapTrue, code::semi(rest)))),
            ),
        ),
{
    reveal(code::do_text);
}

pub broadcast proof fn lemma_do_drop(name: Name, rest: Words)
    ensures
        #[trigger] code::do_text(Do::Drop(name), rest) == words::word(
            Word::DropOpen,
            code::id(name, words::word(Word::Close, code::semi(rest))),
        ),
{
    reveal(code::do_text);
}

pub broadcast proof fn lemma_do_clear(name: Name, rest: Words)
    ensures
        #[trigger] code::do_text(Do::Clear(name), rest) == code::id(name, words::word(Word::SetNone, code::semi(rest))),
{
    reveal(code::do_text);
}

pub broadcast proof fn lemma_do_clear_cell(name: Name, rest: Words)
    ensures
        #[trigger] code::do_text(Do::ClearCell(name), rest) == code::id(
            name,
            words::word(Word::BorrowMut, words::word(Word::SetNone, code::semi(rest))),
        ),
{
    reveal(code::do_text);
}

pub broadcast proof fn lemma_do_clear_guard(rest: Words)
    ensures
        #[trigger] code::do_text(Do::ClearGuard, rest) == words::word(Word::Guard, words::word(Word::SetNone, code::semi(rest))),
{
    reveal(code::do_text);
}

pub broadcast proof fn lemma_do_lock(name: Name, rest: Words)
    ensures
        #[trigger] code::do_text(Do::Lock(name), rest) == words::word(
            Word::LetWord,
            words::word(
                Word::MutWord,
                words::word(
                    Word::Guard,
                    words::word(Word::Eq, code::id(name, words::word(Word::BorrowMut, code::semi(rest)))),
                ),
            ),
        ),
{
    reveal(code::do_text);
}

pub broadcast proof fn lemma_do_pin(name: Name, mutable: bool, input: Region, rest: Words)
    ensures
        #[trigger] code::do_text(Do::Pin(name, mutable, input), rest) == ({
            let pinned = code::id(
                name,
                words::word(
                    Word::Eq,
                    words::word(
                        Word::PinSome,
                        words::word(
                            Word::Input(input),
                            words::word(Word::Close, words::word(Word::Close, code::semi(rest))),
                        ),
                    ),
                ),
            );
            words::word(
                Word::LetWord,
                if mutable {
                    words::word(Word::MutWord, pinned)
                } else {
                    pinned
                },
            )
        }),
{
    reveal(code::do_text);
}

pub broadcast proof fn lemma_do_cell(name: Name, rest: Words)
    ensures
        #[trigger] code::do_text(Do::Cell(name), rest) == words::word(
            Word::LetWord,
            code::id(
                name,
                words::word(
                    Word::Eq,
                    words::word(Word::NewCell, code::id(name, words::word(Word::Close, code::semi(rest)))),
                ),
            ),
        ),
{
    reveal(code::do_text);
}

pub broadcast proof fn lemma_do_label(tree: usize, handle: Handle, rest: Words)
    ensures
        #[trigger] code::do_text(Do::Label(tree, handle), rest) == words::word(
            Word::AllowUnused,
            words::word(
                Word::LetWord,
                words::word(
                    Word::Tree(tree),
                    words::word(
                        Word::Eq,
                        words::word(
                            Word::Amp,
                            words::word(
                                Word::NewCanceller,
                                code::handle_text(
                                    handle,
                                    words::word(
                                        Word::Comma,
                                        words::word(Word::Close, code::semi(rest)),
                                    ),
                                ),
                            ),
                        ),
                    ),
                ),
            ),
        ),
{
    reveal(code::do_text);
}

pub broadcast proof fn lemma_do_label_mut(tree: usize, handle: Handle, arm: Name, rest: Words)
    ensures
        #[trigger] code::do_text(Do::LabelMut(tree, handle, arm), rest) == words::word(
            Word::AllowUnused,
            words::word(
                Word::LetWord,
                words::word(
                    Word::Tree(tree),
                    words::word(
                        Word::Eq,
                        words::word(
                            Word::Amp,
                            words::word(
                                Word::NewCancellerMut,
                                code::handle_text(
                                    handle,
                                    words::word(
                                        Word::Comma,
                                        words::word(
                                            Word::Amp,
                                            code::id(
                                                arm,
                                                words::word(
                                                    Word::Comma,
                                                    words::word(Word::Close, code::semi(rest)),
                                                ),
                                            ),
                                        ),
                                    ),
                                ),
                            ),
                        ),
                    ),
                ),
            ),
        ),
{
    reveal(code::do_text);
}

pub broadcast proof fn lemma_do_poll_body(rest: Words)
    ensures
        #[trigger] code::do_text(Do::PollBody, rest) == words::word(
            Word::LetWord,
            words::word(
                Word::PollWord,
                words::word(Word::Eq, words::word(Word::PollBody, code::semi(rest))),
            ),
        ),
{
    reveal(code::do_text);
}

pub broadcast proof fn lemma_do_return(rest: Words)
    ensures
        #[trigger] code::do_text(Do::Return, rest) == words::word(Word::ReturnWord, words::word(Word::OutputWord, code::semi(rest))),
{
    reveal(code::do_text);
}

pub broadcast proof fn lemma_do_yield(rest: Words)
    ensures
        #[trigger] code::do_text(Do::Yield, rest) == words::word(Word::YieldOnce, code::semi(rest)),
{
    reveal(code::do_text);
}

pub broadcast proof fn lemma_do_break(rest: Words)
    ensures
        #[trigger] code::do_text(Do::Break, rest) == words::word(Word::BreakWord, code::semi(rest)),
{
    reveal(code::do_text);
}

pub broadcast proof fn lemma_do_continue(rest: Words)
    ensures
        #[trigger] code::do_text(Do::Continue, rest) == words::word(Word::ContinueWord, code::semi(rest)),
{
    reveal(code::do_text);
}

pub broadcast proof fn lemma_verdict_bool(b: bool, rest: Words)
    ensures
        #[trigger] code::verdict_text(Verdict::Bool(b), rest) == code::bool_text(b, rest),
{
    reveal_with_fuel(code::verdict_text, 2);
}

pub broadcast proof fn lemma_verdict_after(step: Do, v: Verdict, rest: Words)
    ensures
        #[trigger] code::verdict_text(Verdict::After(step, Box::new(v)), rest) == code::do_text(step, code::verdict_text(v, rest)),
{
    reveal_with_fuel(code::verdict_text, 2);
}

pub broadcast proof fn lemma_verdict_if_else(c: Cond, v: Verdict, w: Verdict, rest: Words)
    ensures
        #[trigger] code::verdict_text(Verdict::IfElse(c, Box::new(v), Box::new(w)), rest) == words::word(
            Word::IfWord,
            code::cond_text(
                c,
                code::brace(
                    code::verdict_text(
                        v,
                        code::close_brace(
                            words::word(
                                Word::ElseWord,
                                code::brace(code::verdict_text(w, code::close_brace(rest))),
                            ),
                        ),
                    ),
                ),
            ),
        ),
{
    reveal_with_fuel(code::verdict_text, 2);
}

pub broadcast proof fn lemma_verdict_future(
    name: Name,
    ready: Verdict,
    pending: Verdict,
    rest: Words,
)
    ensures
        #[trigger] code::verdict_text(Verdict::Future(name, Box::new(ready), Box::new(pending)), rest) == words::word(
            Word::MatchWord,
            words::word(
                Word::PollOnce,
                code::id(
                    name,
                    words::word(
                        Word::CloseAwait,
                        code::brace(
                            words::word(
                                Word::ReadyOutput,
                                words::word(
                                    Word::Arrow,
                                    code::brace(
                                        code::verdict_text(
                                            ready,
                                            code::close_brace(
                                                words::word(
                                                    Word::Pending,
                                                    words::word(
                                                        Word::Arrow,
                                                        code::verdict_text(
                                                            pending,
                                                            words::word(
                                                                Word::Comma,
                                                                code::close_brace(rest),
                                                            ),
                                                        ),
                                                    ),
                                                ),
                                            ),
                                        ),
                                    ),
                                ),
                            ),
                        ),
                    ),
                ),
            ),
        ),
{
    reveal_with_fuel(code::verdict_text, 2);
}

pub broadcast proof fn lemma_verdict_stream(
    name: Name,
    item: Verdict,
    end: Verdict,
    pending: Verdict,
    rest: Words,
)
    ensures
        #[trigger] code::verdict_text(Verdict::Stream(name, Box::new(item), Box::new(end), Box::new(pending)), rest) == words::word(
            Word::MatchWord,
            words::word(
                Word::PollNextOnce,
                code::id(
                    name,
                    words::word(
                        Word::CloseAwait,
                        code::brace(
                            words::word(
                                Word::ReadySomeItem,
                                words::word(
                                    Word::Arrow,
                                    code::brace(
                                        code::verdict_text(
                                            item,
                                            code::close_brace(
                                                words::word(
                                                    Word::ReadyNone,
                                                    words::word(
                                                        Word::Arrow,
                                                        code::brace(
                                                            code::verdict_text(
                                                                end,
                                                                code::close_brace(
                                                                    words::word(
                                                                        Word::Pending,
                                                                        words::word(
                                                                            Word::Arrow,
                                                                            code::verdict_text(
                                                                                pending,
                                                                                words::word(
                                                                                    Word::Comma,
                                                                                    code::close_brace(
                                                                                        rest,
                                                                                    ),
                                                                                ),
                                                                            ),
                                                                        ),
                                                                    ),
                                                                ),
                                                            ),
                                                        ),
                                                    ),
                                                ),
                                            ),
                                        ),
                                    ),
                                ),
                            ),
                        ),
                    ),
                ),
            ),
        ),
{
    reveal_with_fuel(code::verdict_text, 2);
}

pub broadcast proof fn lemma_stmt_skip(rest: Words)
    ensures
        #[trigger] code::text(Stmt::Skip, rest) == rest,
{
    reveal_with_fuel(code::text, 2);
}

pub broadcast proof fn lemma_stmt_then(s: Stmt, t: Stmt, rest: Words)
    ensures
        #[trigger] code::text(Stmt::Then(Box::new(s), Box::new(t)), rest) == code::text(s, code::text(t, rest)),
{
    reveal_with_fuel(code::text, 2);
}

pub broadcast proof fn lemma_stmt_simple(step: Do, rest: Words)
    ensures
        #[trigger] code::text(Stmt::Simple(step), rest) == code::do_text(step, rest),
{
    reveal_with_fuel(code::text, 2);
}

pub broadcast proof fn lemma_stmt_if(c: Cond, s: Stmt, rest: Words)
    ensures
        #[trigger] code::text(Stmt::If(c, Box::new(s)), rest) == words::word(
            Word::IfWord,
            code::cond_text(c, code::brace(code::text(s, code::close_brace(rest)))),
        ),
{
    reveal_with_fuel(code::text, 2);
}

pub broadcast proof fn lemma_stmt_if_else(c: Cond, s: Stmt, t: Stmt, rest: Words)
    ensures
        #[trigger] code::text(Stmt::IfElse(c, Box::new(s), Box::new(t)), rest) == words::word(
            Word::IfWord,
            code::cond_text(
                c,
                code::brace(
                    code::text(
                        s,
                        code::close_brace(
                            words::word(Word::ElseWord, code::brace(code::text(t, code::close_brace(rest)))),
                        ),
                    ),
                ),
            ),
        ),
{
    reveal_with_fuel(code::text, 2);
}

pub broadcast proof fn lemma_stmt_if_else_if(c: Cond, s: Stmt, t: Stmt, rest: Words)
    ensures
        #[trigger] code::text(Stmt::IfElseIf(c, Box::new(s), Box::new(t)), rest) == words::word(
            Word::IfWord,
            code::cond_text(
                c,
                code::brace(code::text(s, code::close_brace(words::word(Word::ElseWord, code::text(t, rest))))),
            ),
        ),
{
    reveal_with_fuel(code::text, 2);
}

pub broadcast proof fn lemma_stmt_loop(s: Stmt, rest: Words)
    ensures
        #[trigger] code::text(Stmt::Loop(Box::new(s)), rest) == words::word(Word::LoopWord, code::brace(code::text(s, code::close_brace(rest)))),
{
    reveal_with_fuel(code::text, 2);
}

pub broadcast proof fn lemma_stmt_let_ready(
    place: Place,
    name: Name,
    verdict: Verdict,
    absent: bool,
    rest: Words,
)
    ensures
        #[trigger] code::text(Stmt::LetReady(place, name, verdict, absent), rest) == ({
            let body = words::word(
                Word::AsPinMut,
                code::brace(
                    code::verdict_text(
                        verdict,
                        code::close_brace(
                            words::word(
                                Word::ElseWord,
                                code::brace(code::bool_text(absent, code::close_brace(code::semi(rest)))),
                            ),
                        ),
                    ),
                ),
            );
            words::word(
                Word::LetWord,
                words::word(
                    Word::IsReady,
                    words::word(
                        Word::Eq,
                        words::word(
                            Word::IfWord,
                            words::word(
                                Word::LetWord,
                                words::word(
                                    Word::SomeOpen,
                                    code::id(
                                        name,
                                        words::word(
                                            Word::Close,
                                            words::word(
                                                Word::Eq,
                                                match place {
                                                    Place::Var(arm) => code::id(arm, body),
                                                    Place::Guard => words::word(Word::Guard, body),
                                                },
                                            ),
                                        ),
                                    ),
                                ),
                            ),
                        ),
                    ),
                ),
            )
        }),
{
    reveal_with_fuel(code::text, 2);
}

pub broadcast proof fn lemma_stmt_if_body(name: Name, s: Stmt, rest: Words)
    ensures
        #[trigger] code::text(Stmt::IfBody(name, Box::new(s)), rest) == words::word(
            Word::IfWord,
            words::word(
                Word::LetWord,
                words::word(
                    Word::SomeFuture,
                    words::word(
                        Word::Eq,
                        code::id(name, words::word(Word::AsMut, code::brace(code::text(s, code::close_brace(rest))))),
                    ),
                ),
            ),
        ),
{
    reveal_with_fuel(code::text, 2);
}

pub broadcast proof fn lemma_stmt_if_returned(s: Stmt, t: Stmt, rest: Words)
    ensures
        #[trigger] code::text(Stmt::IfReturned(Box::new(s), Box::new(t)), rest) == words::word(
            Word::IfWord,
            words::word(
                Word::LetWord,
                words::word(
                    Word::ReadyOutput,
                    words::word(
                        Word::Eq,
                        words::word(
                            Word::PollWord,
                            code::brace(
                                code::text(s, code::close_brace(words::word(Word::ElseWord, code::text(t, rest)))),
                            ),
                        ),
                    ),
                ),
            ),
        ),
{
    reveal_with_fuel(code::text, 2);
}

pub broadcast proof fn lemma_stmt_if_taken(name: Name, s: Stmt, rest: Words)
    ensures
        #[trigger] code::text(Stmt::IfTaken(name, Box::new(s)), rest) == words::word(
            Word::IfWord,
            words::word(
                Word::LetWord,
                words::word(
                    Word::SomeItem,
                    words::word(
                        Word::Eq,
                        code::id(name, words::word(Word::Take, code::brace(code::text(s, code::close_brace(rest))))),
                    ),
                ),
            ),
        ),
{
    reveal_with_fuel(code::text, 2);
}

pub broadcast proof fn lemma_stmt_break_with(values: Returns, rest: Words)
    ensures
        #[trigger] code::text(Stmt::BreakWith(values), rest) == words::word(
            Word::BreakWord,
            words::word(
                Word::Open,
                code::returns_text(values, words::word(Word::Close, code::semi(rest))),
            ),
        ),
{
    reveal_with_fuel(code::text, 2);
}

pub broadcast proof fn lemma_stmt_module(
    name: Name,
    params: Params,
    variants: Variants,
    rest: Words,
)
    ensures
        #[trigger] code::text(Stmt::Module(name, params, variants), rest) == words::word(
            Word::ModWord,
            code::id(
                name,
                code::brace(
                    words::word(
                        Word::EnumArmsInput,
                        words::word(
                            Word::Less,
                            code::params_text(
                                params,
                                words::word(
                                    Word::Greater,
                                    code::brace(code::variants_text(variants, code::close_brace(code::close_brace(rest)))),
                                ),
                            ),
                        ),
                    ),
                ),
            ),
        ),
{
    reveal_with_fuel(code::text, 2);
}

pub broadcast proof fn lemma_stmt_function(
    function: Name,
    param: Name,
    arms: BodyArms,
    flag: Name,
    b: bool,
    rest: Words,
)
    ensures
        #[trigger] code::text(Stmt::Function(function, param, arms, flag, b), rest) == words::word(
            Word::LetWord,
            words::word(
                Word::MutWord,
                code::id(
                    function,
                    words::word(
                        Word::Eq,
                        words::word(
                            Word::AsyncWord,
                            words::word(
                                Word::Bar,
                                code::id(
                                    param,
                                    words::word(
                                        Word::Bar,
                                        code::brace(
                                            words::word(
                                                Word::MatchWord,
                                                code::id(
                                                    param,
                                                    code::brace(
                                                        code::body_arms_text(
                                                            arms,
                                                            code::close_brace(
                                                                words::word(
                                                                    Word::AllowUnreachable,
                                                                    code::brace(
                                                                        code::do_text(
                                                                            Do::Store(flag, b),
                                                                            words::word(
                                                                                Word::PendingForever,
                                                                                code::close_brace(
                                                                                    code::close_brace(
                                                                                        code::semi(rest),
                                                                                    ),
                                                                                ),
                                                                            ),
                                                                        ),
                                                                    ),
                                                                ),
                                                            ),
                                                        ),
                                                    ),
                                                ),
                                            ),
                                        ),
                                    ),
                                ),
                            ),
                        ),
                    ),
                ),
            ),
        ),
{
    reveal_with_fuel(code::text, 2);
}

pub broadcast group group_text {
    lemma_cond_count_is,
    lemma_cond_flag,
    lemma_cond_var,
    lemma_cond_is_ready,
    lemma_cond_already_finished,
    lemma_cond_filled,
    lemma_cond_empty,
    lemma_cond_cell_filled,
    lemma_cond_flag_of,
    lemma_cond_at_most,
    lemma_cond_equals,
    lemma_cond_not,
    lemma_cond_and,
    lemma_cond_or,
    lemma_cond_paren,
    lemma_value_bool,
    lemma_value_nothing,
    lemma_value_zero,
    lemma_value_number,
    lemma_value_number_after,
    lemma_value_copy,
    lemma_value_output,
    lemma_value_item,
    lemma_value_flag_ref,
    lemma_value_run,
    lemma_value_run_finally,
    lemma_value_new_flag,
    lemma_value_new_count,
    lemma_do_assign,
    lemma_do_let,
    lemma_do_let_mut,
    lemma_do_let_mut_flag_ref,
    lemma_do_store,
    lemma_do_add_one,
    lemma_do_swap,
    lemma_do_drop,
    lemma_do_clear,
    lemma_do_clear_cell,
    lemma_do_clear_guard,
    lemma_do_lock,
    lemma_do_pin,
    lemma_do_cell,
    lemma_do_label,
    lemma_do_label_mut,
    lemma_do_poll_body,
    lemma_do_return,
    lemma_do_yield,
    lemma_do_break,
    lemma_do_continue,
    lemma_verdict_bool,
    lemma_verdict_after,
    lemma_verdict_if_else,
    lemma_verdict_future,
    lemma_verdict_stream,
    lemma_stmt_skip,
    lemma_stmt_then,
    lemma_stmt_simple,
    lemma_stmt_if,
    lemma_stmt_if_else,
    lemma_stmt_if_else_if,
    lemma_stmt_loop,
    lemma_stmt_let_ready,
    lemma_stmt_if_body,
    lemma_stmt_if_returned,
    lemma_stmt_if_taken,
    lemma_stmt_break_with,
    lemma_stmt_module,
    lemma_stmt_function,
}

} // verus!
