//! Each text of an expansion is read as the words that stand in it.

use vstd::prelude::*;

use crate::words::{Word, Words};
use crate::words;

verus! {

/// Whether this is how the word is written.
pub open spec fn written(word: Word, text: Seq<char>) -> bool {
    match word {
        Word::AllowUnused => text == "#[allow(unused_variables)]"@,
        Word::AllowUnreachable => text == "#[allow(unreachable_code)]"@,
        Word::IsSomeAndLoad => text == ".is_some_and(|flag| flag.load(::core::sync::atomic::Ordering::Relaxed))"@,
        Word::Load => text == ".load(::core::sync::atomic::Ordering::Relaxed)"@,
        Word::StoreTrue => text == ".store(true, ::core::sync::atomic::Ordering::Relaxed)"@,
        Word::StoreFalse => text == ".store(false, ::core::sync::atomic::Ordering::Relaxed)"@,
        Word::SwapTrue => text == ".swap(true, ::core::sync::atomic::Ordering::Relaxed)"@,
        Word::AddOne => text == ".fetch_add(1, ::core::sync::atomic::Ordering::Relaxed)"@,
        Word::NewFalse => text == "::core::sync::atomic::AtomicBool::new(false)"@,
        Word::NewZero => text == "::core::sync::atomic::AtomicUsize::new(0)"@,
        Word::NewCancellerMut => text == "::join_me_maybe::_impl::new_canceller_mut("@,
        Word::NewCanceller => text == "::join_me_maybe::_impl::new_canceller("@,
        Word::PinSome => text == "::core::pin::pin!(::core::option::Option::Some("@,
        Word::FlagType => text == "::core::option::Option<&::core::sync::atomic::AtomicBool>"@,
        Word::NewCell => text == "::join_me_maybe::_impl::AtomicRefCell::new("@,
        Word::PollBody => text == "::join_me_maybe::_impl::PollOnce(unsafe { ::core::pin::Pin::new_unchecked(future) }).await"@,
        Word::PollOnce => text == "::join_me_maybe::_impl::PollOnce("@,
        Word::PollNextOnce => text == "::join_me_maybe::_impl::PollNextOnce("@,
        Word::CloseAwait => text == ").await"@,
        Word::ReadyOutput => text == "::core::task::Poll::Ready(output)"@,
        Word::ReadySomeItem => text == "::core::task::Poll::Ready(::core::option::Option::Some(item))"@,
        Word::ReadyNone => text == "::core::task::Poll::Ready(None)"@,
        Word::Pending => text == "::core::task::Poll::Pending"@,
        Word::SomeOutput => text == "::core::option::Option::Some(output)"@,
        Word::SomeItem => text == "::core::option::Option::Some(item)"@,
        Word::SomeFuture => text == "::core::option::Option::Some(future)"@,
        Word::SomeOpen => text == "::core::option::Option::Some("@,
        Word::SetNone => text == ".set(::core::option::Option::None)"@,
        Word::NoneWord => text == "::core::option::Option::None"@ || text == "None"@,
        Word::IsSome => text == ".is_some()"@,
        Word::IsNone => text == ".is_none()"@,
        Word::Take => text == ".take()"@,
        Word::Expect => text == ".expect(\"this arm can't be cancelled\")"@,
        Word::BorrowMut => text == ".borrow_mut()"@,
        Word::Borrow => text == ".borrow()"@,
        Word::AsPinMut => text == ".as_mut().as_pin_mut()"@,
        Word::AsMut => text == ".as_mut()"@,
        Word::YieldOnce => text == "::join_me_maybe::_impl::yield_once().await"@,
        Word::PendingForever => text == "::core::future::pending().await"@,
        Word::ArmsInput => text == "::ArmsInput::"@,
        Word::EnumArmsInput => text == "pub enum ArmsInput"@,
        Word::LetUnit => text == "let _: () ="@,
        Word::AlreadyFinished => text == "already_finished"@,
        Word::IsReady => text == "is_ready"@,
        Word::Guard => text == "guard"@,
        Word::OutputWord => text == "output"@,
        Word::ItemWord => text == "item"@,
        Word::PollWord => text == "poll"@,
        Word::Zero => text == "0usize"@,
        Word::One => text == "1"@,
        Word::ContinueWord => text == "continue"@,
        Word::ReturnWord => text == "return"@,
        Word::BreakWord => text == "break"@,
        Word::MatchWord => text == "match"@,
        Word::AsyncWord => text == "async"@,
        Word::DropOpen => text == "drop("@,
        Word::ElseWord => text == "else"@,
        Word::LoopWord => text == "loop"@,
        Word::TrueWord => text == "true"@,
        Word::FalseWord => text == "false"@,
        Word::LetWord => text == "let"@,
        Word::MutWord => text == "mut"@,
        Word::ModWord => text == "mod"@,
        Word::IfWord => text == "if"@,
        Word::EqEq => text == "=="@,
        Word::Arrow => text == "=>"@,
        Word::AtMostWord => text == "<="@,
        Word::OrOr => text == "||"@,
        Word::AndAnd => text == "&&"@,
        Word::Eq => text == "="@,
        Word::Open => text == "("@,
        Word::Close => text == ")"@,
        Word::BraceOpen => text == "{"@,
        Word::BraceClose => text == "}"@,
        Word::Comma => text == ","@,
        Word::Semi => text == ";"@,
        Word::Bang => text == "!"@,
        Word::Amp => text == "&"@,
        Word::Bar => text == "|"@,
        Word::Plus => text == "+"@,
        Word::Colon => text == ":"@,
        Word::Less => text == "<"@,
        Word::Greater => text == ">"@,
        _ => false,
    }
}

/// Whether the text is the words, one after the other, with a space between two of them or none.
pub open spec fn says(text: Seq<char>, words: Words) -> bool
    decreases words,
{
    match words {
        Words::End => text.len() == 0,
        Words::Then(word, rest) => exists|n: int| #[trigger]
            written(word, text.take(n)) && 0 <= n <= text.len() && (says(text.skip(n), *rest) || n
                < text.len() && text[n] == ' ' && says(text.skip(n + 1), *rest)),
    }
}

/// Whether the words can be read.
pub open spec fn readable(words: Words) -> bool
    decreases words,
{
    match words {
        Words::End => true,
        Words::Then(word, rest) => word != Word::Unreadable && readable(*rest),
    }
}

/// A text, and the words that it says.
struct Said {
    text: Seq<char>,
    words: Words,
}

spec fn nothing() -> Said {
    Said { text: Seq::empty(), words: Words::End }
}

/// A word with nothing between it and the rest.
proof fn next_to(first: Seq<char>, word: Word, rest: Said) -> (all: Said)
    requires
        written(word, first),
        says(rest.text, rest.words),
    ensures
        all == (Said { text: first + rest.text, words: words::word(word, rest.words) }),
        says(all.text, all.words),
{
    let text = first + rest.text;
    assert(text.take(first.len() as int) =~= first);
    assert(text.skip(first.len() as int) =~= rest.text);
    assert(written(word, text.take(first.len() as int)));
    Said { text, words: words::word(word, rest.words) }
}

/// A word with a space between it and the rest.
proof fn before(first: Seq<char>, word: Word, rest: Said) -> (all: Said)
    requires
        written(word, first),
        says(rest.text, rest.words),
    ensures
        all == (Said { text: first + seq![' '] + rest.text, words: words::word(word, rest.words) }),
        says(all.text, all.words),
{
    let text = first + seq![' '] + rest.text;
    assert(text.take(first.len() as int) =~= first);
    assert(text[first.len() as int] == ' ');
    assert(text.skip(first.len() as int + 1) =~= rest.text);
    assert(written(word, text.take(first.len() as int)));
    Said { text, words: words::word(word, rest.words) }
}

proof fn lemma_text_1()
    ensures
        says("!"@, words::spelled("!"@, Words::End)),
{
    words::lemma_spelled_a();
    reveal_strlit("!");
    let said = nothing();
    let said = next_to("!"@, Word::Bang, said);
    assert("!"@ =~= said.text);
}

proof fn lemma_text_2()
    ensures
        says("("@, words::spelled("("@, Words::End)),
{
    words::lemma_spelled_a();
    reveal_strlit("(");
    let said = nothing();
    let said = next_to("("@, Word::Open, said);
    assert("("@ =~= said.text);
}

proof fn lemma_text_3()
    ensures
        says(")"@, words::spelled(")"@, Words::End)),
{
    words::lemma_spelled_a();
    reveal_strlit(")");
    let said = nothing();
    let said = next_to(")"@, Word::Close, said);
    assert(")"@ =~= said.text);
}

proof fn lemma_text_4()
    ensures
        says(","@, words::spelled(","@, Words::End)),
{
    words::lemma_spelled_a();
    reveal_strlit(",");
    let said = nothing();
    let said = next_to(","@, Word::Comma, said);
    assert(","@ =~= said.text);
}

proof fn lemma_text_5()
    ensures
        says(";"@, words::spelled(";"@, Words::End)),
{
    words::lemma_spelled_a();
    reveal_strlit(";");
    let said = nothing();
    let said = next_to(";"@, Word::Semi, said);
    assert(";"@ =~= said.text);
}

proof fn lemma_text_6()
    ensures
        says("="@, words::spelled("="@, Words::End)),
{
    words::lemma_spelled_a();
    reveal_strlit("=");
    let said = nothing();
    let said = next_to("="@, Word::Eq, said);
    assert("="@ =~= said.text);
}

proof fn lemma_text_7()
    ensures
        says("{"@, words::spelled("{"@, Words::End)),
{
    words::lemma_spelled_a();
    reveal_strlit("{");
    let said = nothing();
    let said = next_to("{"@, Word::BraceOpen, said);
    assert("{"@ =~= said.text);
}

proof fn lemma_text_8()
    ensures
        says("}"@, words::spelled("}"@, Words::End)),
{
    words::lemma_spelled_a();
    reveal_strlit("}");
    let said = nothing();
    let said = next_to("}"@, Word::BraceClose, said);
    assert("}"@ =~= said.text);
}

proof fn lemma_text_9()
    ensures
        says("&&"@, words::spelled("&&"@, Words::End)),
{
    words::lemma_spelled_a();
    reveal_strlit("&&");
    let said = nothing();
    let said = next_to("&&"@, Word::AndAnd, said);
    assert("&&"@ =~= said.text);
}

proof fn lemma_text_10()
    ensures
        says("(("@, words::spelled("(("@, Words::End)),
{
    words::lemma_spelled_a();
    reveal_strlit("((");
    reveal_strlit("(");
    let said = nothing();
    let said = next_to("("@, Word::Open, said);
    let said = next_to("("@, Word::Open, said);
    assert("(("@ =~= said.text);
}

proof fn lemma_text_11()
    ensures
        says("),"@, words::spelled("),"@, Words::End)),
{
    words::lemma_spelled_a();
    reveal_strlit("),");
    reveal_strlit(")");
    reveal_strlit(",");
    let said = nothing();
    let said = next_to(","@, Word::Comma, said);
    let said = next_to(")"@, Word::Close, said);
    assert("),"@ =~= said.text);
}

proof fn lemma_text_12()
    ensures
        says(");"@, words::spelled(");"@, Words::End)),
{
    words::lemma_spelled_a();
    reveal_strlit(");");
    reveal_strlit(")");
    reveal_strlit(";");
    let said = nothing();
    let said = next_to(";"@, Word::Semi, said);
    let said = next_to(")"@, Word::Close, said);
    assert(");"@ =~= said.text);
}

proof fn lemma_text_13()
    ensures
        says("<="@, words::spelled("<="@, Words::End)),
{
    words::lemma_spelled_a();
    reveal_strlit("<=");
    let said = nothing();
    let said = next_to("<="@, Word::AtMostWord, said);
    assert("<="@ =~= said.text);
}

proof fn lemma_text_14()
    ensures
        says("=="@, words::spelled("=="@, Words::End)),
{
    words::lemma_spelled_a();
    reveal_strlit("==");
    let said = nothing();
    let said = next_to("=="@, Word::EqEq, said);
    assert("=="@ =~= said.text);
}

proof fn lemma_text_15()
    ensures
        says("if"@, words::spelled("if"@, Words::End)),
{
    words::lemma_spelled_a();
    reveal_strlit("if");
    let said = nothing();
    let said = next_to("if"@, Word::IfWord, said);
    assert("if"@ =~= said.text);
}

proof fn lemma_text_16()
    ensures
        says("||"@, words::spelled("||"@, Words::End)),
{
    words::lemma_spelled_a();
    reveal_strlit("||");
    let said = nothing();
    let said = next_to("||"@, Word::OrOr, said);
    assert("||"@ =~= said.text);
}

proof fn lemma_text_17()
    ensures
        says("(),"@, words::spelled("(),"@, Words::End)),
{
    words::lemma_spelled_b();
    reveal_strlit("(),");
    reveal_strlit("(");
    reveal_strlit(")");
    reveal_strlit(",");
    let said = nothing();
    let said = next_to(","@, Word::Comma, said);
    let said = next_to(")"@, Word::Close, said);
    let said = next_to("("@, Word::Open, said);
    assert("(),"@ =~= said.text);
}

proof fn lemma_text_18()
    ensures
        says(") ="@, words::spelled(") ="@, Words::End)),
{
    words::lemma_spelled_b();
    reveal_strlit(") =");
    reveal_strlit(")");
    reveal_strlit("=");
    let said = nothing();
    let said = next_to("="@, Word::Eq, said);
    let said = before(")"@, Word::Close, said);
    assert(") ="@ =~= said.text);
}

proof fn lemma_text_19()
    ensures
        says(") {"@, words::spelled(") {"@, Words::End)),
{
    words::lemma_spelled_b();
    reveal_strlit(") {");
    reveal_strlit(")");
    reveal_strlit("{");
    let said = nothing();
    let said = next_to("{"@, Word::BraceOpen, said);
    let said = before(")"@, Word::Close, said);
    assert(") {"@ =~= said.text);
}

proof fn lemma_text_20()
    ensures
        says("));"@, words::spelled("));"@, Words::End)),
{
    words::lemma_spelled_b();
    reveal_strlit("));");
    reveal_strlit(")");
    reveal_strlit(";");
    let said = nothing();
    let said = next_to(";"@, Word::Semi, said);
    let said = next_to(")"@, Word::Close, said);
    let said = next_to(")"@, Word::Close, said);
    assert("));"@ =~= said.text);
}

proof fn lemma_text_21()
    ensures
        says(", &"@, words::spelled(", &"@, Words::End)),
{
    words::lemma_spelled_b();
    reveal_strlit(", &");
    reveal_strlit(",");
    reveal_strlit("&");
    let said = nothing();
    let said = next_to("&"@, Word::Amp, said);
    let said = before(","@, Word::Comma, said);
    assert(", &"@ =~= said.text);
}

proof fn lemma_text_22()
    ensures
        says(",);"@, words::spelled(",);"@, Words::End)),
{
    words::lemma_spelled_b();
    reveal_strlit(",);");
    reveal_strlit(",");
    reveal_strlit(")");
    reveal_strlit(";");
    let said = nothing();
    let said = next_to(";"@, Word::Semi, said);
    let said = next_to(")"@, Word::Close, said);
    let said = next_to(","@, Word::Comma, said);
    assert(",);"@ =~= said.text);
}

proof fn lemma_text_23()
    ensures
        says("; }"@, words::spelled("; }"@, Words::End)),
{
    words::lemma_spelled_b();
    reveal_strlit("; }");
    reveal_strlit(";");
    reveal_strlit("}");
    let said = nothing();
    let said = next_to("}"@, Word::BraceClose, said);
    let said = before(";"@, Word::Semi, said);
    assert("; }"@ =~= said.text);
}

proof fn lemma_text_24()
    ensures
        says("= {"@, words::spelled("= {"@, Words::End)),
{
    words::lemma_spelled_b();
    reveal_strlit("= {");
    reveal_strlit("=");
    reveal_strlit("{");
    let said = nothing();
    let said = next_to("{"@, Word::BraceOpen, said);
    let said = before("="@, Word::Eq, said);
    assert("= {"@ =~= said.text);
}

proof fn lemma_text_25()
    ensures
        says("> {"@, words::spelled("> {"@, Words::End)),
{
    words::lemma_spelled_b();
    reveal_strlit("> {");
    reveal_strlit(">");
    reveal_strlit("{");
    let said = nothing();
    let said = next_to("{"@, Word::BraceOpen, said);
    let said = before(">"@, Word::Greater, said);
    assert("> {"@ =~= said.text);
}

proof fn lemma_text_26()
    ensures
        says("let"@, words::spelled("let"@, Words::End)),
{
    words::lemma_spelled_b();
    reveal_strlit("let");
    let said = nothing();
    let said = next_to("let"@, Word::LetWord, said);
    assert("let"@ =~= said.text);
}

proof fn lemma_text_27()
    ensures
        says("mod"@, words::spelled("mod"@, Words::End)),
{
    words::lemma_spelled_b();
    reveal_strlit("mod");
    let said = nothing();
    let said = next_to("mod"@, Word::ModWord, said);
    assert("mod"@ =~= said.text);
}

proof fn lemma_text_28()
    ensures
        says("} }"@, words::spelled("} }"@, Words::End)),
{
    words::lemma_spelled_b();
    reveal_strlit("} }");
    reveal_strlit("}");
    let said = nothing();
    let said = next_to("}"@, Word::BraceClose, said);
    let said = before("}"@, Word::BraceClose, said);
    assert("} }"@ =~= said.text);
}

proof fn lemma_text_29()
    ensures
        says(") ||"@, words::spelled(") ||"@, Words::End)),
{
    words::lemma_spelled_b();
    reveal_strlit(") ||");
    reveal_strlit(")");
    reveal_strlit("||");
    let said = nothing();
    let said = next_to("||"@, Word::OrOr, said);
    let said = before(")"@, Word::Close, said);
    assert(") ||"@ =~= said.text);
}

proof fn lemma_text_30()
    ensures
        says("), &"@, words::spelled("), &"@, Words::End)),
{
    words::lemma_spelled_b();
    reveal_strlit("), &");
    reveal_strlit(")");
    reveal_strlit(",");
    reveal_strlit("&");
    let said = nothing();
    let said = next_to("&"@, Word::Amp, said);
    let said = before(","@, Word::Comma, said);
    let said = next_to(")"@, Word::Close, said);
    assert("), &"@ =~= said.text);
}

proof fn lemma_text_31()
    ensures
        says("None"@, words::spelled("None"@, Words::End)),
{
    words::lemma_spelled_b();
    reveal_strlit("None");
    let said = nothing();
    let said = next_to("None"@, Word::NoneWord, said);
    assert("None"@ =~= said.text);
}

proof fn lemma_text_32()
    ensures
        says("if !"@, words::spelled("if !"@, Words::End)),
{
    words::lemma_spelled_b();
    reveal_strlit("if !");
    reveal_strlit("if");
    reveal_strlit("!");
    let said = nothing();
    let said = next_to("!"@, Word::Bang, said);
    let said = before("if"@, Word::IfWord, said);
    assert("if !"@ =~= said.text);
}

proof fn lemma_text_33()
    ensures
        says("true"@, words::spelled("true"@, Words::End)),
{
    words::lemma_spelled_c();
    reveal_strlit("true");
    let said = nothing();
    let said = next_to("true"@, Word::TrueWord, said);
    assert("true"@ =~= said.text);
}

proof fn lemma_text_34()
    ensures
        says("drop("@, words::spelled("drop("@, Words::End)),
{
    words::lemma_spelled_c();
    reveal_strlit("drop(");
    let said = nothing();
    let said = next_to("drop("@, Word::DropOpen, said);
    assert("drop("@ =~= said.text);
}

proof fn lemma_text_35()
    ensures
        says("false"@, words::spelled("false"@, Words::End)),
{
    words::lemma_spelled_c();
    reveal_strlit("false");
    let said = nothing();
    let said = next_to("false"@, Word::FalseWord, said);
    assert("false"@ =~= said.text);
}

proof fn lemma_text_36()
    ensures
        says("if !("@, words::spelled("if !("@, Words::End)),
{
    words::lemma_spelled_c();
    reveal_strlit("if !(");
    reveal_strlit("if");
    reveal_strlit("!");
    reveal_strlit("(");
    let said = nothing();
    let said = next_to("("@, Word::Open, said);
    let said = next_to("!"@, Word::Bang, said);
    let said = before("if"@, Word::IfWord, said);
    assert("if !("@ =~= said.text);
}

proof fn lemma_text_37()
    ensures
        says("{ let"@, words::spelled("{ let"@, Words::End)),
{
    words::lemma_spelled_c();
    reveal_strlit("{ let");
    reveal_strlit("{");
    reveal_strlit("let");
    let said = nothing();
    let said = next_to("let"@, Word::LetWord, said);
    let said = before("{"@, Word::BraceOpen, said);
    assert("{ let"@ =~= said.text);
}

proof fn lemma_text_38()
    ensures
        says("); } }"@, words::spelled("); } }"@, Words::End)),
{
    words::lemma_spelled_c();
    reveal_strlit("); } }");
    reveal_strlit(")");
    reveal_strlit(";");
    reveal_strlit("}");
    let said = nothing();
    let said = next_to("}"@, Word::BraceClose, said);
    let said = before("}"@, Word::BraceClose, said);
    let said = before(";"@, Word::Semi, said);
    let said = next_to(")"@, Word::Close, said);
    assert("); } }"@ =~= said.text);
}

proof fn lemma_text_39()
    ensures
        says("loop {"@, words::spelled("loop {"@, Words::End)),
{
    words::lemma_spelled_c();
    reveal_strlit("loop {");
    reveal_strlit("loop");
    reveal_strlit("{");
    let said = nothing();
    let said = next_to("{"@, Word::BraceOpen, said);
    let said = before("loop"@, Word::LoopWord, said);
    assert("loop {"@ =~= said.text);
}

proof fn lemma_text_40()
    ensures
        says("{ if !"@, words::spelled("{ if !"@, Words::End)),
{
    words::lemma_spelled_c();
    reveal_strlit("{ if !");
    reveal_strlit("{");
    reveal_strlit("if");
    reveal_strlit("!");
    let said = nothing();
    let said = next_to("!"@, Word::Bang, said);
    let said = before("if"@, Word::IfWord, said);
    let said = before("{"@, Word::BraceOpen, said);
    assert("{ if !"@ =~= said.text);
}

proof fn lemma_text_41()
    ensures
        says(")); let"@, words::spelled(")); let"@, Words::End)),
{
    words::lemma_spelled_c();
    reveal_strlit(")); let");
    reveal_strlit(")");
    reveal_strlit(";");
    reveal_strlit("let");
    let said = nothing();
    let said = next_to("let"@, Word::LetWord, said);
    let said = before(";"@, Word::Semi, said);
    let said = next_to(")"@, Word::Close, said);
    let said = next_to(")"@, Word::Close, said);
    assert(")); let"@ =~= said.text);
}

proof fn lemma_text_42()
    ensures
        says("= None;"@, words::spelled("= None;"@, Words::End)),
{
    words::lemma_spelled_c();
    reveal_strlit("= None;");
    reveal_strlit("=");
    reveal_strlit("None");
    reveal_strlit(";");
    let said = nothing();
    let said = next_to(";"@, Word::Semi, said);
    let said = next_to("None"@, Word::NoneWord, said);
    let said = before("="@, Word::Eq, said);
    assert("= None;"@ =~= said.text);
}

proof fn lemma_text_43()
    ensures
        says("= true;"@, words::spelled("= true;"@, Words::End)),
{
    words::lemma_spelled_c();
    reveal_strlit("= true;");
    reveal_strlit("=");
    reveal_strlit("true");
    reveal_strlit(";");
    let said = nothing();
    let said = next_to(";"@, Word::Semi, said);
    let said = next_to("true"@, Word::TrueWord, said);
    let said = before("="@, Word::Eq, said);
    assert("= true;"@ =~= said.text);
}

proof fn lemma_text_44()
    ensures
        says("break ("@, words::spelled("break ("@, Words::End)),
{
    words::lemma_spelled_c();
    reveal_strlit("break (");
    reveal_strlit("break");
    reveal_strlit("(");
    let said = nothing();
    let said = next_to("("@, Word::Open, said);
    let said = before("break"@, Word::BreakWord, said);
    assert("break ("@ =~= said.text);
}

proof fn lemma_text_45()
    ensures
        says("let mut"@, words::spelled("let mut"@, Words::End)),
{
    words::lemma_spelled_c();
    reveal_strlit("let mut");
    reveal_strlit("let");
    reveal_strlit("mut");
    let said = nothing();
    let said = next_to("mut"@, Word::MutWord, said);
    let said = before("let"@, Word::LetWord, said);
    assert("let mut"@ =~= said.text);
}

proof fn lemma_text_46()
    ensures
        says(".take(),"@, words::spelled(".take(),"@, Words::End)),
{
    words::lemma_spelled_c();
    reveal_strlit(".take(),");
    reveal_strlit(".take()");
    reveal_strlit(",");
    let said = nothing();
    let said = next_to(","@, Word::Comma, said);
    let said = next_to(".take()"@, Word::Take, said);
    assert(".take(),"@ =~= said.text);
}

proof fn lemma_text_47()
    ensures
        says("= false;"@, words::spelled("= false;"@, Words::End)),
{
    words::lemma_spelled_c();
    reveal_strlit("= false;");
    reveal_strlit("=");
    reveal_strlit("false");
    reveal_strlit(";");
    let said = nothing();
    let said = next_to(";"@, Word::Semi, said);
    let said = next_to("false"@, Word::FalseWord, said);
    let said = before("="@, Word::Eq, said);
    assert("= false;"@ =~= said.text);
}

proof fn lemma_text_48()
    ensures
        says("=> { let"@, words::spelled("=> { let"@, Words::End)),
{
    words::lemma_spelled_c();
    reveal_strlit("=> { let");
    reveal_strlit("=>");
    reveal_strlit("{");
    reveal_strlit("let");
    let said = nothing();
    let said = next_to("let"@, Word::LetWord, said);
    let said = before("{"@, Word::BraceOpen, said);
    let said = before("=>"@, Word::Arrow, said);
    assert("=> { let"@ =~= said.text);
}

proof fn lemma_text_49()
    ensures
        says("{ loop {"@, words::spelled("{ loop {"@, Words::End)),
{
    words::lemma_spelled_d();
    reveal_strlit("{ loop {");
    reveal_strlit("{");
    reveal_strlit("loop");
    let said = nothing();
    let said = next_to("{"@, Word::BraceOpen, said);
    let said = before("loop"@, Word::LoopWord, said);
    let said = before("{"@, Word::BraceOpen, said);
    assert("{ loop {"@ =~= said.text);
}

proof fn lemma_text_50()
    ensures
        says("(item)));"@, words::spelled("(item)));"@, Words::End)),
{
    words::lemma_spelled_d();
    reveal_strlit("(item)));");
    reveal_strlit("(");
    reveal_strlit("item");
    reveal_strlit(")");
    reveal_strlit(";");
    let said = nothing();
    let said = next_to(";"@, Word::Semi, said);
    let said = next_to(")"@, Word::Close, said);
    let said = next_to(")"@, Word::Close, said);
    let said = next_to(")"@, Word::Close, said);
    let said = next_to("item"@, Word::ItemWord, said);
    let said = next_to("("@, Word::Open, said);
    assert("(item)));"@ =~= said.text);
}

proof fn lemma_text_51()
    ensures
        says(", None, &"@, words::spelled(", None, &"@, Words::End)),
{
    words::lemma_spelled_d();
    reveal_strlit(", None, &");
    reveal_strlit(",");
    reveal_strlit("None");
    reveal_strlit("&");
    let said = nothing();
    let said = next_to("&"@, Word::Amp, said);
    let said = before(","@, Word::Comma, said);
    let said = next_to("None"@, Word::NoneWord, said);
    let said = before(","@, Word::Comma, said);
    assert(", None, &"@ =~= said.text);
}

proof fn lemma_text_52()
    ensures
        says(".take() {"@, words::spelled(".take() {"@, Words::End)),
{
    words::lemma_spelled_d();
    reveal_strlit(".take() {");
    reveal_strlit(".take()");
    reveal_strlit("{");
    let said = nothing();
    let said = next_to("{"@, Word::BraceOpen, said);
    let said = before(".take()"@, Word::Take, said);
    assert(".take() {"@ =~= said.text);
}

proof fn lemma_text_53()
    ensures
        says("= 0usize;"@, words::spelled("= 0usize;"@, Words::End)),
{
    words::lemma_spelled_d();
    reveal_strlit("= 0usize;");
    reveal_strlit("=");
    reveal_strlit("0usize");
    reveal_strlit(";");
    let said = nothing();
    let said = next_to(";"@, Word::Semi, said);
    let said = next_to("0usize"@, Word::Zero, said);
    let said = before("="@, Word::Eq, said);
    assert("= 0usize;"@ =~= said.text);
}

proof fn lemma_text_54()
    ensures
        says("= async |"@, words::spelled("= async |"@, Words::End)),
{
    words::lemma_spelled_d();
    reveal_strlit("= async |");
    reveal_strlit("=");
    reveal_strlit("async");
    reveal_strlit("|");
    let said = nothing();
    let said = next_to("|"@, Word::Bar, said);
    let said = before("async"@, Word::AsyncWord, said);
    let said = before("="@, Word::Eq, said);
    assert("= async |"@ =~= said.text);
}

proof fn lemma_text_55()
    ensures
        says("= true; }"@, words::spelled("= true; }"@, Words::End)),
{
    words::lemma_spelled_d();
    reveal_strlit("= true; }");
    reveal_strlit("=");
    reveal_strlit("true");
    reveal_strlit(";");
    reveal_strlit("}");
    let said = nothing();
    let said = next_to("}"@, Word::BraceClose, said);
    let said = before(";"@, Word::Semi, said);
    let said = next_to("true"@, Word::TrueWord, said);
    let said = before("="@, Word::Eq, said);
    assert("= true; }"@ =~= said.text);
}

proof fn lemma_text_56()
    ensures
        says("loop { if"@, words::spelled("loop { if"@, Words::End)),
{
    words::lemma_spelled_d();
    reveal_strlit("loop { if");
    reveal_strlit("loop");
    reveal_strlit("{");
    reveal_strlit("if");
    let said = nothing();
    let said = next_to("if"@, Word::IfWord, said);
    let said = before("{"@, Word::BraceOpen, said);
    let said = before("loop"@, Word::LoopWord, said);
    assert("loop { if"@ =~= said.text);
}

proof fn lemma_text_57()
    ensures
        says("| { match"@, words::spelled("| { match"@, Words::End)),
{
    words::lemma_spelled_d();
    reveal_strlit("| { match");
    reveal_strlit("|");
    reveal_strlit("{");
    reveal_strlit("match");
    let said = nothing();
    let said = next_to("match"@, Word::MatchWord, said);
    let said = before("{"@, Word::BraceOpen, said);
    let said = before("|"@, Word::Bar, said);
    assert("| { match"@ =~= said.text);
}

proof fn lemma_text_58()
    ensures
        says(".is_none()"@, words::spelled(".is_none()"@, Words::End)),
{
    words::lemma_spelled_d();
    reveal_strlit(".is_none()");
    let said = nothing();
    let said = next_to(".is_none()"@, Word::IsNone, said);
    assert(".is_none()"@ =~= said.text);
}

proof fn lemma_text_59()
    ensures
        says(".is_some()"@, words::spelled(".is_some()"@, Words::End)),
{
    words::lemma_spelled_d();
    reveal_strlit(".is_some()");
    let said = nothing();
    let said = next_to(".is_some()"@, Word::IsSome, said);
    assert(".is_some()"@ =~= said.text);
}

proof fn lemma_text_60()
    ensures
        says("break; } }"@, words::spelled("break; } }"@, Words::End)),
{
    words::lemma_spelled_d();
    reveal_strlit("break; } }");
    reveal_strlit("break");
    reveal_strlit(";");
    reveal_strlit("}");
    let said = nothing();
    let said = next_to("}"@, Word::BraceClose, said);
    let said = before("}"@, Word::BraceClose, said);
    let said = before(";"@, Word::Semi, said);
    let said = next_to("break"@, Word::BreakWord, said);
    assert("break; } }"@ =~= said.text);
}

proof fn lemma_text_61()
    ensures
        says("{ break; }"@, words::spelled("{ break; }"@, Words::End)),
{
    words::lemma_spelled_d();
    reveal_strlit("{ break; }");
    reveal_strlit("{");
    reveal_strlit("break");
    reveal_strlit(";");
    reveal_strlit("}");
    let said = nothing();
    let said = next_to("}"@, Word::BraceClose, said);
    let said = before(";"@, Word::Semi, said);
    let said = next_to("break"@, Word::BreakWord, said);
    let said = before("{"@, Word::BraceOpen, said);
    assert("{ break; }"@ =~= said.text);
}

proof fn lemma_text_62()
    ensures
        says("; continue;"@, words::spelled("; continue;"@, Words::End)),
{
    words::lemma_spelled_d();
    reveal_strlit("; continue;");
    reveal_strlit(";");
    reveal_strlit("continue");
    let said = nothing();
    let said = next_to(";"@, Word::Semi, said);
    let said = next_to("continue"@, Word::ContinueWord, said);
    let said = before(";"@, Word::Semi, said);
    assert("; continue;"@ =~= said.text);
}

proof fn lemma_text_63()
    ensures
        says("); } else if"@, words::spelled("); } else if"@, Words::End)),
{
    words::lemma_spelled_d();
    reveal_strlit("); } else if");
    reveal_strlit(")");
    reveal_strlit(";");
    reveal_strlit("}");
    reveal_strlit("else");
    reveal_strlit("if");
    let said = nothing();
    let said = next_to("if"@, Word::IfWord, said);
    let said = before("else"@, Word::ElseWord, said);
    let said = before("}"@, Word::BraceClose, said);
    let said = before(";"@, Word::Semi, said);
    let said = next_to(")"@, Word::Close, said);
    assert("); } else if"@ =~= said.text);
}

proof fn lemma_text_64()
    ensures
        says("+ 1; break; }"@, words::spelled("+ 1; break; }"@, Words::End)),
{
    words::lemma_spelled_d();
    reveal_strlit("+ 1; break; }");
    reveal_strlit("+");
    reveal_strlit("1");
    reveal_strlit(";");
    reveal_strlit("break");
    reveal_strlit("}");
    let said = nothing();
    let said = next_to("}"@, Word::BraceClose, said);
    let said = before(";"@, Word::Semi, said);
    let said = next_to("break"@, Word::BreakWord, said);
    let said = before(";"@, Word::Semi, said);
    let said = next_to("1"@, Word::One, said);
    let said = before("+"@, Word::Plus, said);
    assert("+ 1; break; }"@ =~= said.text);
}

proof fn lemma_text_65()
    ensures
        says(".is_some() &&"@, words::spelled(".is_some() &&"@, Words::End)),
{
    words::lemma_spelled_e();
    reveal_strlit(".is_some() &&");
    reveal_strlit(".is_some()");
    reveal_strlit("&&");
    let said = nothing();
    let said = next_to("&&"@, Word::AndAnd, said);
    let said = before(".is_some()"@, Word::IsSome, said);
    assert(".is_some() &&"@ =~= said.text);
}

proof fn lemma_text_66()
    ensures
        says("::ArmsInput::"@, words::spelled("::ArmsInput::"@, Words::End)),
{
    words::lemma_spelled_e();
    reveal_strlit("::ArmsInput::");
    let said = nothing();
    let said = next_to("::ArmsInput::"@, Word::ArmsInput, said);
    assert("::ArmsInput::"@ =~= said.text);
}

proof fn lemma_text_67()
    ensures
        says("= None; drop("@, words::spelled("= None; drop("@, Words::End)),
{
    words::lemma_spelled_e();
    reveal_strlit("= None; drop(");
    reveal_strlit("=");
    reveal_strlit("None");
    reveal_strlit(";");
    reveal_strlit("drop(");
    let said = nothing();
    let said = next_to("drop("@, Word::DropOpen, said);
    let said = before(";"@, Word::Semi, said);
    let said = next_to("None"@, Word::NoneWord, said);
    let said = before("="@, Word::Eq, said);
    assert("= None; drop("@ =~= said.text);
}

proof fn lemma_text_68()
    ensures
        says(") { break; } }"@, words::spelled(") { break; } }"@, Words::End)),
{
    words::lemma_spelled_e();
    reveal_strlit(") { break; } }");
    reveal_strlit(")");
    reveal_strlit("{");
    reveal_strlit("break");
    reveal_strlit(";");
    reveal_strlit("}");
    let said = nothing();
    let said = next_to("}"@, Word::BraceClose, said);
    let said = before("}"@, Word::BraceClose, said);
    let said = before(";"@, Word::Semi, said);
    let said = next_to("break"@, Word::BreakWord, said);
    let said = before("{"@, Word::BraceOpen, said);
    let said = before(")"@, Word::Close, said);
    assert(") { break; } }"@ =~= said.text);
}

proof fn lemma_text_69()
    ensures
        says("); } else if !"@, words::spelled("); } else if !"@, Words::End)),
{
    words::lemma_spelled_e();
    reveal_strlit("); } else if !");
    reveal_strlit(")");
    reveal_strlit(";");
    reveal_strlit("}");
    reveal_strlit("else");
    reveal_strlit("if");
    reveal_strlit("!");
    let said = nothing();
    let said = next_to("!"@, Word::Bang, said);
    let said = before("if"@, Word::IfWord, said);
    let said = before("else"@, Word::ElseWord, said);
    let said = before("}"@, Word::BraceClose, said);
    let said = before(";"@, Word::Semi, said);
    let said = next_to(")"@, Word::Close, said);
    assert("); } else if !"@ =~= said.text);
}

proof fn lemma_text_70()
    ensures
        says("= false; } } }"@, words::spelled("= false; } } }"@, Words::End)),
{
    words::lemma_spelled_e();
    reveal_strlit("= false; } } }");
    reveal_strlit("=");
    reveal_strlit("false");
    reveal_strlit(";");
    reveal_strlit("}");
    let said = nothing();
    let said = next_to("}"@, Word::BraceClose, said);
    let said = before("}"@, Word::BraceClose, said);
    let said = before("}"@, Word::BraceClose, said);
    let said = before(";"@, Word::Semi, said);
    let said = next_to("false"@, Word::FalseWord, said);
    let said = before("="@, Word::Eq, said);
    assert("= false; } } }"@ =~= said.text);
}

proof fn lemma_text_71()
    ensures
        says(".is_none() && ("@, words::spelled(".is_none() && ("@, Words::End)),
{
    words::lemma_spelled_e();
    reveal_strlit(".is_none() && (");
    reveal_strlit(".is_none()");
    reveal_strlit("&&");
    reveal_strlit("(");
    let said = nothing();
    let said = next_to("("@, Word::Open, said);
    let said = before("&&"@, Word::AndAnd, said);
    let said = before(".is_none()"@, Word::IsNone, said);
    assert(".is_none() && ("@ =~= said.text);
}

proof fn lemma_text_72()
    ensures
        says("= false; let mut"@, words::spelled("= false; let mut"@, Words::End)),
{
    words::lemma_spelled_e();
    reveal_strlit("= false; let mut");
    reveal_strlit("=");
    reveal_strlit("false");
    reveal_strlit(";");
    reveal_strlit("let");
    reveal_strlit("mut");
    let said = nothing();
    let said = next_to("mut"@, Word::MutWord, said);
    let said = before("let"@, Word::LetWord, said);
    let said = before(";"@, Word::Semi, said);
    let said = next_to("false"@, Word::FalseWord, said);
    let said = before("="@, Word::Eq, said);
    assert("= false; let mut"@ =~= said.text);
}

proof fn lemma_text_73()
    ensures
        says("= 0usize; let mut"@, words::spelled("= 0usize; let mut"@, Words::End)),
{
    words::lemma_spelled_e();
    reveal_strlit("= 0usize; let mut");
    reveal_strlit("=");
    reveal_strlit("0usize");
    reveal_strlit(";");
    reveal_strlit("let");
    reveal_strlit("mut");
    let said = nothing();
    let said = next_to("mut"@, Word::MutWord, said);
    let said = before("let"@, Word::LetWord, said);
    let said = before(";"@, Word::Semi, said);
    let said = next_to("0usize"@, Word::Zero, said);
    let said = before("="@, Word::Eq, said);
    assert("= 0usize; let mut"@ =~= said.text);
}

proof fn lemma_text_74()
    ensures
        says("{ let mut guard ="@, words::spelled("{ let mut guard ="@, Words::End)),
{
    words::lemma_spelled_e();
    reveal_strlit("{ let mut guard =");
    reveal_strlit("{");
    reveal_strlit("let");
    reveal_strlit("mut");
    reveal_strlit("guard");
    reveal_strlit("=");
    let said = nothing();
    let said = next_to("="@, Word::Eq, said);
    let said = before("guard"@, Word::Guard, said);
    let said = before("mut"@, Word::MutWord, said);
    let said = before("let"@, Word::LetWord, said);
    let said = before("{"@, Word::BraceOpen, said);
    assert("{ let mut guard ="@ =~= said.text);
}

proof fn lemma_text_75()
    ensures
        says(") => { let _: () ="@, words::spelled(") => { let _: () ="@, Words::End)),
{
    words::lemma_spelled_e();
    reveal_strlit(") => { let _: () =");
    reveal_strlit(")");
    reveal_strlit("=>");
    reveal_strlit("{");
    reveal_strlit("let _: () =");
    let said = nothing();
    let said = next_to("let _: () ="@, Word::LetUnit, said);
    let said = before("{"@, Word::BraceOpen, said);
    let said = before("=>"@, Word::Arrow, said);
    let said = before(")"@, Word::Close, said);
    assert(") => { let _: () ="@ =~= said.text);
}

proof fn lemma_text_76()
    ensures
        says(".borrow().is_some()"@, words::spelled(".borrow().is_some()"@, Words::End)),
{
    words::lemma_spelled_e();
    reveal_strlit(".borrow().is_some()");
    reveal_strlit(".borrow()");
    reveal_strlit(".is_some()");
    let said = nothing();
    let said = next_to(".is_some()"@, Word::IsSome, said);
    let said = next_to(".borrow()"@, Word::Borrow, said);
    assert(".borrow().is_some()"@ =~= said.text);
}

proof fn lemma_text_77()
    ensures
        says("{ pub enum ArmsInput<"@, words::spelled("{ pub enum ArmsInput<"@, Words::End)),
{
    words::lemma_spelled_e();
    reveal_strlit("{ pub enum ArmsInput<");
    reveal_strlit("{");
    reveal_strlit("pub enum ArmsInput");
    reveal_strlit("<");
    let said = nothing();
    let said = next_to("<"@, Word::Less, said);
    let said = next_to("pub enum ArmsInput"@, Word::EnumArmsInput, said);
    let said = before("{"@, Word::BraceOpen, said);
    assert("{ pub enum ArmsInput<"@ =~= said.text);
}

proof fn lemma_text_78()
    ensures
        says("{ } else { break; } }"@, words::spelled("{ } else { break; } }"@, Words::End)),
{
    words::lemma_spelled_e();
    reveal_strlit("{ } else { break; } }");
    reveal_strlit("{");
    reveal_strlit("}");
    reveal_strlit("else");
    reveal_strlit("break");
    reveal_strlit(";");
    let said = nothing();
    let said = next_to("}"@, Word::BraceClose, said);
    let said = before("}"@, Word::BraceClose, said);
    let said = before(";"@, Word::Semi, said);
    let said = next_to("break"@, Word::BreakWord, said);
    let said = before("{"@, Word::BraceOpen, said);
    let said = before("else"@, Word::ElseWord, said);
    let said = before("}"@, Word::BraceClose, said);
    let said = before("{"@, Word::BraceOpen, said);
    assert("{ } else { break; } }"@ =~= said.text);
}

proof fn lemma_text_79()
    ensures
        says("let already_finished ="@, words::spelled("let already_finished ="@, Words::End)),
{
    words::lemma_spelled_e();
    reveal_strlit("let already_finished =");
    reveal_strlit("let");
    reveal_strlit("already_finished");
    reveal_strlit("=");
    let said = nothing();
    let said = next_to("="@, Word::Eq, said);
    let said = before("already_finished"@, Word::AlreadyFinished, said);
    let said = before("let"@, Word::LetWord, said);
    assert("let already_finished ="@ =~= said.text);
}

proof fn lemma_text_80()
    ensures
        says(".is_none() { break; } }"@, words::spelled(".is_none() { break; } }"@, Words::End)),
{
    words::lemma_spelled_e();
    reveal_strlit(".is_none() { break; } }");
    reveal_strlit(".is_none()");
    reveal_strlit("{");
    reveal_strlit("break");
    reveal_strlit(";");
    reveal_strlit("}");
    let said = nothing();
    let said = next_to("}"@, Word::BraceClose, said);
    let said = before("}"@, Word::BraceClose, said);
    let said = before(";"@, Word::Semi, said);
    let said = next_to("break"@, Word::BreakWord, said);
    let said = before("{"@, Word::BraceOpen, said);
    let said = before(".is_none()"@, Word::IsNone, said);
    assert(".is_none() { break; } }"@ =~= said.text);
}

proof fn lemma_text_81()
    ensures
        says(".as_mut().as_pin_mut() {"@, words::spelled(".as_mut().as_pin_mut() {"@, Words::End)),
{
    words::lemma_spelled_f();
    reveal_strlit(".as_mut().as_pin_mut() {");
    reveal_strlit(".as_mut().as_pin_mut()");
    reveal_strlit("{");
    let said = nothing();
    let said = next_to("{"@, Word::BraceOpen, said);
    let said = before(".as_mut().as_pin_mut()"@, Word::AsPinMut, said);
    assert(".as_mut().as_pin_mut() {"@ =~= said.text);
}

proof fn lemma_text_82()
    ensures
        says("#[allow(unused_variables)] let"@, words::spelled("#[allow(unused_variables)] let"@, Words::End)),
{
    words::lemma_spelled_f();
    reveal_strlit("#[allow(unused_variables)] let");
    reveal_strlit("#[allow(unused_variables)]");
    reveal_strlit("let");
    let said = nothing();
    let said = next_to("let"@, Word::LetWord, said);
    let said = before("#[allow(unused_variables)]"@, Word::AllowUnused, said);
    assert("#[allow(unused_variables)] let"@ =~= said.text);
}

proof fn lemma_text_83()
    ensures
        says("::core::option::Option::Some(&"@, words::spelled("::core::option::Option::Some(&"@, Words::End)),
{
    words::lemma_spelled_f();
    reveal_strlit("::core::option::Option::Some(&");
    reveal_strlit("::core::option::Option::Some(");
    reveal_strlit("&");
    let said = nothing();
    let said = next_to("&"@, Word::Amp, said);
    let said = next_to("::core::option::Option::Some("@, Word::SomeOpen, said);
    assert("::core::option::Option::Some(&"@ =~= said.text);
}

proof fn lemma_text_84()
    ensures
        says("} #[allow(unreachable_code)] {"@, words::spelled("} #[allow(unreachable_code)] {"@, Words::End)),
{
    words::lemma_spelled_f();
    reveal_strlit("} #[allow(unreachable_code)] {");
    reveal_strlit("}");
    reveal_strlit("#[allow(unreachable_code)]");
    reveal_strlit("{");
    let said = nothing();
    let said = next_to("{"@, Word::BraceOpen, said);
    let said = before("#[allow(unreachable_code)]"@, Word::AllowUnreachable, said);
    let said = before("}"@, Word::BraceClose, said);
    assert("} #[allow(unreachable_code)] {"@ =~= said.text);
}

proof fn lemma_text_85()
    ensures
        says("= ::core::option::Option::None;"@, words::spelled("= ::core::option::Option::None;"@, Words::End)),
{
    words::lemma_spelled_f();
    reveal_strlit("= ::core::option::Option::None;");
    reveal_strlit("=");
    reveal_strlit("::core::option::Option::None");
    reveal_strlit(";");
    let said = nothing();
    let said = next_to(";"@, Word::Semi, said);
    let said = next_to("::core::option::Option::None"@, Word::NoneWord, said);
    let said = before("="@, Word::Eq, said);
    assert("= ::core::option::Option::None;"@ =~= said.text);
}

proof fn lemma_text_86()
    ensures
        says("= ::core::option::Option::Some("@, words::spelled("= ::core::option::Option::Some("@, Words::End)),
{
    words::lemma_spelled_f();
    reveal_strlit("= ::core::option::Option::Some(");
    reveal_strlit("=");
    reveal_strlit("::core::option::Option::Some(");
    let said = nothing();
    let said = next_to("::core::option::Option::Some("@, Word::SomeOpen, said);
    let said = before("="@, Word::Eq, said);
    assert("= ::core::option::Option::Some("@ =~= said.text);
}

proof fn lemma_text_87()
    ensures
        says("} else { false }; if is_ready {"@, words::spelled("} else { false }; if is_ready {"@, Words::End)),
{
    words::lemma_spelled_f();
    reveal_strlit("} else { false }; if is_ready {");
    reveal_strlit("}");
    reveal_strlit("else");
    reveal_strlit("{");
    reveal_strlit("false");
    reveal_strlit(";");
    reveal_strlit("if");
    reveal_strlit("is_ready");
    let said = nothing();
    let said = next_to("{"@, Word::BraceOpen, said);
    let said = before("is_ready"@, Word::IsReady, said);
    let said = before("if"@, Word::IfWord, said);
    let said = before(";"@, Word::Semi, said);
    let said = next_to("}"@, Word::BraceClose, said);
    let said = before("false"@, Word::FalseWord, said);
    let said = before("{"@, Word::BraceOpen, said);
    let said = before("else"@, Word::ElseWord, said);
    let said = before("}"@, Word::BraceClose, said);
    assert("} else { false }; if is_ready {"@ =~= said.text);
}

proof fn lemma_text_88()
    ensures
        says("}; #[allow(unreachable_code)] {"@, words::spelled("}; #[allow(unreachable_code)] {"@, Words::End)),
{
    words::lemma_spelled_f();
    reveal_strlit("}; #[allow(unreachable_code)] {");
    reveal_strlit("}");
    reveal_strlit(";");
    reveal_strlit("#[allow(unreachable_code)]");
    reveal_strlit("{");
    let said = nothing();
    let said = next_to("{"@, Word::BraceOpen, said);
    let said = before("#[allow(unreachable_code)]"@, Word::AllowUnreachable, said);
    let said = before(";"@, Word::Semi, said);
    let said = next_to("}"@, Word::BraceClose, said);
    assert("}; #[allow(unreachable_code)] {"@ =~= said.text);
}

proof fn lemma_text_89()
    ensures
        says(", ::core::option::Option::Some(&"@, words::spelled(", ::core::option::Option::Some(&"@, Words::End)),
{
    words::lemma_spelled_f();
    reveal_strlit(", ::core::option::Option::Some(&");
    reveal_strlit(",");
    reveal_strlit("::core::option::Option::Some(");
    reveal_strlit("&");
    let said = nothing();
    let said = next_to("&"@, Word::Amp, said);
    let said = next_to("::core::option::Option::Some("@, Word::SomeOpen, said);
    let said = before(","@, Word::Comma, said);
    assert(", ::core::option::Option::Some(&"@ =~= said.text);
}

proof fn lemma_text_90()
    ensures
        says(") = guard.as_mut().as_pin_mut() {"@, words::spelled(") = guard.as_mut().as_pin_mut() {"@, Words::End)),
{
    words::lemma_spelled_f();
    reveal_strlit(") = guard.as_mut().as_pin_mut() {");
    reveal_strlit(")");
    reveal_strlit("=");
    reveal_strlit("guard");
    reveal_strlit(".as_mut().as_pin_mut()");
    reveal_strlit("{");
    let said = nothing();
    let said = next_to("{"@, Word::BraceOpen, said);
    let said = before(".as_mut().as_pin_mut()"@, Word::AsPinMut, said);
    let said = next_to("guard"@, Word::Guard, said);
    let said = before("="@, Word::Eq, said);
    let said = before(")"@, Word::Close, said);
    assert(") = guard.as_mut().as_pin_mut() {"@ =~= said.text);
}

proof fn lemma_text_91()
    ensures
        says(".set(::core::option::Option::None);"@, words::spelled(".set(::core::option::Option::None);"@, Words::End)),
{
    words::lemma_spelled_f();
    reveal_strlit(".set(::core::option::Option::None);");
    reveal_strlit(".set(::core::option::Option::None)");
    reveal_strlit(";");
    let said = nothing();
    let said = next_to(";"@, Word::Semi, said);
    let said = next_to(".set(::core::option::Option::None)"@, Word::SetNone, said);
    assert(".set(::core::option::Option::None);"@ =~= said.text);
}

proof fn lemma_text_92()
    ensures
        says("= ::core::option::Option::None; let mut"@, words::spelled("= ::core::option::Option::None; let mut"@, Words::End)),
{
    words::lemma_spelled_f();
    reveal_strlit("= ::core::option::Option::None; let mut");
    reveal_strlit("=");
    reveal_strlit("::core::option::Option::None");
    reveal_strlit(";");
    reveal_strlit("let");
    reveal_strlit("mut");
    let said = nothing();
    let said = next_to("mut"@, Word::MutWord, said);
    let said = before("let"@, Word::LetWord, said);
    let said = before(";"@, Word::Semi, said);
    let said = next_to("::core::option::Option::None"@, Word::NoneWord, said);
    let said = before("="@, Word::Eq, said);
    assert("= ::core::option::Option::None; let mut"@ =~= said.text);
}

proof fn lemma_text_93()
    ensures
        says("match ::join_me_maybe::_impl::PollOnce("@, words::spelled("match ::join_me_maybe::_impl::PollOnce("@, Words::End)),
{
    words::lemma_spelled_f();
    reveal_strlit("match ::join_me_maybe::_impl::PollOnce(");
    reveal_strlit("match");
    reveal_strlit("::join_me_maybe::_impl::PollOnce(");
    let said = nothing();
    let said = next_to("::join_me_maybe::_impl::PollOnce("@, Word::PollOnce, said);
    let said = before("match"@, Word::MatchWord, said);
    assert("match ::join_me_maybe::_impl::PollOnce("@ =~= said.text);
}

proof fn lemma_text_94()
    ensures
        says("= &::join_me_maybe::_impl::new_canceller(&"@, words::spelled("= &::join_me_maybe::_impl::new_canceller(&"@, Words::End)),
{
    words::lemma_spelled_f();
    reveal_strlit("= &::join_me_maybe::_impl::new_canceller(&");
    reveal_strlit("=");
    reveal_strlit("&");
    reveal_strlit("::join_me_maybe::_impl::new_canceller(");
    let said = nothing();
    let said = next_to("&"@, Word::Amp, said);
    let said = next_to("::join_me_maybe::_impl::new_canceller("@, Word::NewCanceller, said);
    let said = next_to("&"@, Word::Amp, said);
    let said = before("="@, Word::Eq, said);
    assert("= &::join_me_maybe::_impl::new_canceller(&"@ =~= said.text);
}

proof fn lemma_text_95()
    ensures
        says("if let ::core::option::Option::Some(item) ="@, words::spelled("if let ::core::option::Option::Some(item) ="@, Words::End)),
{
    words::lemma_spelled_f();
    reveal_strlit("if let ::core::option::Option::Some(item) =");
    reveal_strlit("if");
    reveal_strlit("let");
    reveal_strlit("::core::option::Option::Some(item)");
    reveal_strlit("=");
    let said = nothing();
    let said = next_to("="@, Word::Eq, said);
    let said = before("::core::option::Option::Some(item)"@, Word::SomeItem, said);
    let said = before("let"@, Word::LetWord, said);
    let said = before("if"@, Word::IfWord, said);
    assert("if let ::core::option::Option::Some(item) ="@ =~= said.text);
}

proof fn lemma_text_96()
    ensures
        says("= ::core::sync::atomic::AtomicUsize::new(0);"@, words::spelled("= ::core::sync::atomic::AtomicUsize::new(0);"@, Words::End)),
{
    words::lemma_spelled_f();
    reveal_strlit("= ::core::sync::atomic::AtomicUsize::new(0);");
    reveal_strlit("=");
    reveal_strlit("::core::sync::atomic::AtomicUsize::new(0)");
    reveal_strlit(";");
    let said = nothing();
    let said = next_to(";"@, Word::Semi, said);
    let said = next_to("::core::sync::atomic::AtomicUsize::new(0)"@, Word::NewZero, said);
    let said = before("="@, Word::Eq, said);
    assert("= ::core::sync::atomic::AtomicUsize::new(0);"@ =~= said.text);
}

proof fn lemma_text_97()
    ensures
        says("= ::join_me_maybe::_impl::AtomicRefCell::new("@, words::spelled("= ::join_me_maybe::_impl::AtomicRefCell::new("@, Words::End)),
{
    words::lemma_spelled_g();
    reveal_strlit("= ::join_me_maybe::_impl::AtomicRefCell::new(");
    reveal_strlit("=");
    reveal_strlit("::join_me_maybe::_impl::AtomicRefCell::new(");
    let said = nothing();
    let said = next_to("::join_me_maybe::_impl::AtomicRefCell::new("@, Word::NewCell, said);
    let said = before("="@, Word::Eq, said);
    assert("= ::join_me_maybe::_impl::AtomicRefCell::new("@ =~= said.text);
}

proof fn lemma_text_98()
    ensures
        says(".load(::core::sync::atomic::Ordering::Relaxed)"@, words::spelled(".load(::core::sync::atomic::Ordering::Relaxed)"@, Words::End)),
{
    words::lemma_spelled_g();
    reveal_strlit(".load(::core::sync::atomic::Ordering::Relaxed)");
    let said = nothing();
    let said = next_to(".load(::core::sync::atomic::Ordering::Relaxed)"@, Word::Load, said);
    assert(".load(::core::sync::atomic::Ordering::Relaxed)"@ =~= said.text);
}

proof fn lemma_text_99()
    ensures
        says(".take().expect(\"this arm can't be cancelled\"),"@, words::spelled(".take().expect(\"this arm can't be cancelled\"),"@, Words::End)),
{
    words::lemma_spelled_g();
    reveal_strlit(".take().expect(\"this arm can't be cancelled\"),");
    reveal_strlit(".take()");
    reveal_strlit(".expect(\"this arm can't be cancelled\")");
    reveal_strlit(",");
    let said = nothing();
    let said = next_to(","@, Word::Comma, said);
    let said = next_to(".expect(\"this arm can't be cancelled\")"@, Word::Expect, said);
    let said = next_to(".take()"@, Word::Take, said);
    assert(".take().expect(\"this arm can't be cancelled\"),"@ =~= said.text);
}

proof fn lemma_text_100()
    ensures
        says("= &::join_me_maybe::_impl::new_canceller_mut(&"@, words::spelled("= &::join_me_maybe::_impl::new_canceller_mut(&"@, Words::End)),
{
    words::lemma_spelled_g();
    reveal_strlit("= &::join_me_maybe::_impl::new_canceller_mut(&");
    reveal_strlit("=");
    reveal_strlit("&");
    reveal_strlit("::join_me_maybe::_impl::new_canceller_mut(");
    let said = nothing();
    let said = next_to("&"@, Word::Amp, said);
    let said = next_to("::join_me_maybe::_impl::new_canceller_mut("@, Word::NewCancellerMut, said);
    let said = next_to("&"@, Word::Amp, said);
    let said = before("="@, Word::Eq, said);
    assert("= &::join_me_maybe::_impl::new_canceller_mut(&"@ =~= said.text);
}

proof fn lemma_text_101()
    ensures
        says("{ ::join_me_maybe::_impl::yield_once().await; }"@, words::spelled("{ ::join_me_maybe::_impl::yield_once().await; }"@, Words::End)),
{
    words::lemma_spelled_g();
    reveal_strlit("{ ::join_me_maybe::_impl::yield_once().await; }");
    reveal_strlit("{");
    reveal_strlit("::join_me_maybe::_impl::yield_once().await");
    reveal_strlit(";");
    reveal_strlit("}");
    let said = nothing();
    let said = next_to("}"@, Word::BraceClose, said);
    let said = before(";"@, Word::Semi, said);
    let said = next_to("::join_me_maybe::_impl::yield_once().await"@, Word::YieldOnce, said);
    let said = before("{"@, Word::BraceOpen, said);
    assert("{ ::join_me_maybe::_impl::yield_once().await; }"@ =~= said.text);
}

proof fn lemma_text_102()
    ensures
        says(").await { ::core::task::Poll::Ready(output) => {"@, words::spelled(").await { ::core::task::Poll::Ready(output) => {"@, Words::End)),
{
    words::lemma_spelled_g();
    reveal_strlit(").await { ::core::task::Poll::Ready(output) => {");
    reveal_strlit(").await");
    reveal_strlit("{");
    reveal_strlit("::core::task::Poll::Ready(output)");
    reveal_strlit("=>");
    let said = nothing();
    let said = next_to("{"@, Word::BraceOpen, said);
    let said = before("=>"@, Word::Arrow, said);
    let said = before("::core::task::Poll::Ready(output)"@, Word::ReadyOutput, said);
    let said = before("{"@, Word::BraceOpen, said);
    let said = before(").await"@, Word::CloseAwait, said);
    assert(").await { ::core::task::Poll::Ready(output) => {"@ =~= said.text);
}

proof fn lemma_text_103()
    ensures
        says(".borrow_mut().set(::core::option::Option::None);"@, words::spelled(".borrow_mut().set(::core::option::Option::None);"@, Words::End)),
{
    words::lemma_spelled_g();
    reveal_strlit(".borrow_mut().set(::core::option::Option::None);");
    reveal_strlit(".borrow_mut()");
    reveal_strlit(".set(::core::option::Option::None)");
    reveal_strlit(";");
    let said = nothing();
    let said = next_to(";"@, Word::Semi, said);
    let said = next_to(".set(::core::option::Option::None)"@, Word::SetNone, said);
    let said = next_to(".borrow_mut()"@, Word::BorrowMut, said);
    assert(".borrow_mut().set(::core::option::Option::None);"@ =~= said.text);
}

proof fn lemma_text_104()
    ensures
        says(".load(::core::sync::atomic::Ordering::Relaxed) {"@, words::spelled(".load(::core::sync::atomic::Ordering::Relaxed) {"@, Words::End)),
{
    words::lemma_spelled_g();
    reveal_strlit(".load(::core::sync::atomic::Ordering::Relaxed) {");
    reveal_strlit(".load(::core::sync::atomic::Ordering::Relaxed)");
    reveal_strlit("{");
    let said = nothing();
    let said = next_to("{"@, Word::BraceOpen, said);
    let said = before(".load(::core::sync::atomic::Ordering::Relaxed)"@, Word::Load, said);
    assert(".load(::core::sync::atomic::Ordering::Relaxed) {"@ =~= said.text);
}

proof fn lemma_text_105()
    ensures
        says("true } ::core::task::Poll::Pending => false, } }"@, words::spelled("true } ::core::task::Poll::Pending => false, } }"@, Words::End)),
{
    words::lemma_spelled_g();
    reveal_strlit("true } ::core::task::Poll::Pending => false, } }");
    reveal_strlit("true");
    reveal_strlit("}");
    reveal_strlit("::core::task::Poll::Pending");
    reveal_strlit("=>");
    reveal_strlit("false");
    reveal_strlit(",");
    let said = nothing();
    let said = next_to("}"@, Word::BraceClose, said);
    let said = before("}"@, Word::BraceClose, said);
    let said = before(","@, Word::Comma, said);
    let said = next_to("false"@, Word::FalseWord, said);
    let said = before("=>"@, Word::Arrow, said);
    let said = before("::core::task::Poll::Pending"@, Word::Pending, said);
    let said = before("}"@, Word::BraceClose, said);
    let said = before("true"@, Word::TrueWord, said);
    assert("true } ::core::task::Poll::Pending => false, } }"@ =~= said.text);
}

proof fn lemma_text_106()
    ensures
        says(".load(::core::sync::atomic::Ordering::Relaxed) =="@, words::spelled(".load(::core::sync::atomic::Ordering::Relaxed) =="@, Words::End)),
{
    words::lemma_spelled_g();
    reveal_strlit(".load(::core::sync::atomic::Ordering::Relaxed) ==");
    reveal_strlit(".load(::core::sync::atomic::Ordering::Relaxed)");
    reveal_strlit("==");
    let said = nothing();
    let said = next_to("=="@, Word::EqEq, said);
    let said = before(".load(::core::sync::atomic::Ordering::Relaxed)"@, Word::Load, said);
    assert(".load(::core::sync::atomic::Ordering::Relaxed) =="@ =~= said.text);
}

proof fn lemma_text_107()
    ensures
        says("= ::core::pin::pin!(::core::option::Option::Some("@, words::spelled("= ::core::pin::pin!(::core::option::Option::Some("@, Words::End)),
{
    words::lemma_spelled_g();
    reveal_strlit("= ::core::pin::pin!(::core::option::Option::Some(");
    reveal_strlit("=");
    reveal_strlit("::core::pin::pin!(::core::option::Option::Some(");
    let said = nothing();
    let said = next_to("::core::pin::pin!(::core::option::Option::Some("@, Word::PinSome, said);
    let said = before("="@, Word::Eq, said);
    assert("= ::core::pin::pin!(::core::option::Option::Some("@ =~= said.text);
}

proof fn lemma_text_108()
    ensures
        says("= ::core::sync::atomic::AtomicBool::new(false); let"@, words::spelled("= ::core::sync::atomic::AtomicBool::new(false); let"@, Words::End)),
{
    words::lemma_spelled_g();
    reveal_strlit("= ::core::sync::atomic::AtomicBool::new(false); let");
    reveal_strlit("=");
    reveal_strlit("::core::sync::atomic::AtomicBool::new(false)");
    reveal_strlit(";");
    reveal_strlit("let");
    let said = nothing();
    let said = next_to("let"@, Word::LetWord, said);
    let said = before(";"@, Word::Semi, said);
    let said = next_to("::core::sync::atomic::AtomicBool::new(false)"@, Word::NewFalse, said);
    let said = before("="@, Word::Eq, said);
    assert("= ::core::sync::atomic::AtomicBool::new(false); let"@ =~= said.text);
}

proof fn lemma_text_109()
    ensures
        says("let is_ready = if let ::core::option::Option::Some("@, words::spelled("let is_ready = if let ::core::option::Option::Some("@, Words::End)),
{
    words::lemma_spelled_g();
    reveal_strlit("let is_ready = if let ::core::option::Option::Some(");
    reveal_strlit("let");
    reveal_strlit("is_ready");
    reveal_strlit("=");
    reveal_strlit("if");
    reveal_strlit("::core::option::Option::Some(");
    let said = nothing();
    let said = next_to("::core::option::Option::Some("@, Word::SomeOpen, said);
    let said = before("let"@, Word::LetWord, said);
    let said = before("if"@, Word::IfWord, said);
    let said = before("="@, Word::Eq, said);
    let said = before("is_ready"@, Word::IsReady, said);
    let said = before("let"@, Word::LetWord, said);
    assert("let is_ready = if let ::core::option::Option::Some("@ =~= said.text);
}

proof fn lemma_text_110()
    ensures
        says("{ ::join_me_maybe::_impl::yield_once().await; } } }"@, words::spelled("{ ::join_me_maybe::_impl::yield_once().await; } } }"@, Words::End)),
{
    words::lemma_spelled_g();
    reveal_strlit("{ ::join_me_maybe::_impl::yield_once().await; } } }");
    reveal_strlit("{");
    reveal_strlit("::join_me_maybe::_impl::yield_once().await");
    reveal_strlit(";");
    reveal_strlit("}");
    let said = nothing();
    let said = next_to("}"@, Word::BraceClose, said);
    let said = before("}"@, Word::BraceClose, said);
    let said = before("}"@, Word::BraceClose, said);
    let said = before(";"@, Word::Semi, said);
    let said = next_to("::join_me_maybe::_impl::yield_once().await"@, Word::YieldOnce, said);
    let said = before("{"@, Word::BraceOpen, said);
    assert("{ ::join_me_maybe::_impl::yield_once().await; } } }"@ =~= said.text);
}

proof fn lemma_text_111()
    ensures
        says(".fetch_add(1, ::core::sync::atomic::Ordering::Relaxed);"@, words::spelled(".fetch_add(1, ::core::sync::atomic::Ordering::Relaxed);"@, Words::End)),
{
    words::lemma_spelled_g();
    reveal_strlit(".fetch_add(1, ::core::sync::atomic::Ordering::Relaxed);");
    reveal_strlit(".fetch_add(1, ::core::sync::atomic::Ordering::Relaxed)");
    reveal_strlit(";");
    let said = nothing();
    let said = next_to(";"@, Word::Semi, said);
    let said = next_to(".fetch_add(1, ::core::sync::atomic::Ordering::Relaxed)"@, Word::AddOne, said);
    assert(".fetch_add(1, ::core::sync::atomic::Ordering::Relaxed);"@ =~= said.text);
}

proof fn lemma_text_112()
    ensures
        says("= ::core::sync::atomic::AtomicBool::new(false); let mut"@, words::spelled("= ::core::sync::atomic::AtomicBool::new(false); let mut"@, Words::End)),
{
    words::lemma_spelled_g();
    reveal_strlit("= ::core::sync::atomic::AtomicBool::new(false); let mut");
    reveal_strlit("=");
    reveal_strlit("::core::sync::atomic::AtomicBool::new(false)");
    reveal_strlit(";");
    reveal_strlit("let");
    reveal_strlit("mut");
    let said = nothing();
    let said = next_to("mut"@, Word::MutWord, said);
    let said = before("let"@, Word::LetWord, said);
    let said = before(";"@, Word::Semi, said);
    let said = next_to("::core::sync::atomic::AtomicBool::new(false)"@, Word::NewFalse, said);
    let said = before("="@, Word::Eq, said);
    assert("= ::core::sync::atomic::AtomicBool::new(false); let mut"@ =~= said.text);
}

proof fn lemma_text_113()
    ensures
        says("= None; } if let ::core::option::Option::Some(future) ="@, words::spelled("= None; } if let ::core::option::Option::Some(future) ="@, Words::End)),
{
    words::lemma_spelled_h();
    reveal_strlit("= None; } if let ::core::option::Option::Some(future) =");
    reveal_strlit("=");
    reveal_strlit("None");
    reveal_strlit(";");
    reveal_strlit("}");
    reveal_strlit("if");
    reveal_strlit("let");
    reveal_strlit("::core::option::Option::Some(future)");
    let said = nothing();
    let said = next_to("="@, Word::Eq, said);
    let said = before("::core::option::Option::Some(future)"@, Word::SomeFuture, said);
    let said = before("let"@, Word::LetWord, said);
    let said = before("if"@, Word::IfWord, said);
    let said = before("}"@, Word::BraceClose, said);
    let said = before(";"@, Word::Semi, said);
    let said = next_to("None"@, Word::NoneWord, said);
    let said = before("="@, Word::Eq, said);
    assert("= None; } if let ::core::option::Option::Some(future) ="@ =~= said.text);
}

proof fn lemma_text_114()
    ensures
        says(".fetch_add(1, ::core::sync::atomic::Ordering::Relaxed); }"@, words::spelled(".fetch_add(1, ::core::sync::atomic::Ordering::Relaxed); }"@, Words::End)),
{
    words::lemma_spelled_h();
    reveal_strlit(".fetch_add(1, ::core::sync::atomic::Ordering::Relaxed); }");
    reveal_strlit(".fetch_add(1, ::core::sync::atomic::Ordering::Relaxed)");
    reveal_strlit(";");
    reveal_strlit("}");
    let said = nothing();
    let said = next_to("}"@, Word::BraceClose, said);
    let said = before(";"@, Word::Semi, said);
    let said = next_to(".fetch_add(1, ::core::sync::atomic::Ordering::Relaxed)"@, Word::AddOne, said);
    assert(".fetch_add(1, ::core::sync::atomic::Ordering::Relaxed); }"@ =~= said.text);
}

proof fn lemma_text_115()
    ensures
        says(".store(false, ::core::sync::atomic::Ordering::Relaxed); } else if"@, words::spelled(".store(false, ::core::sync::atomic::Ordering::Relaxed); } else if"@, Words::End)),
{
    words::lemma_spelled_h();
    reveal_strlit(".store(false, ::core::sync::atomic::Ordering::Relaxed); } else if");
    reveal_strlit(".store(false, ::core::sync::atomic::Ordering::Relaxed)");
    reveal_strlit(";");
    reveal_strlit("}");
    reveal_strlit("else");
    reveal_strlit("if");
    let said = nothing();
    let said = next_to("if"@, Word::IfWord, said);
    let said = before("else"@, Word::ElseWord, said);
    let said = before("}"@, Word::BraceClose, said);
    let said = before(";"@, Word::Semi, said);
    let said = next_to(".store(false, ::core::sync::atomic::Ordering::Relaxed)"@, Word::StoreFalse, said);
    assert(".store(false, ::core::sync::atomic::Ordering::Relaxed); } else if"@ =~= said.text);
}

proof fn lemma_text_116()
    ensures
        says(".borrow_mut(); let is_ready = if let ::core::option::Option::Some("@, words::spelled(".borrow_mut(); let is_ready = if let ::core::option::Option::Some("@, Words::End)),
{
    words::lemma_spelled_h();
    reveal_strlit(".borrow_mut(); let is_ready = if let ::core::option::Option::Some(");
    reveal_strlit(".borrow_mut()");
    reveal_strlit(";");
    reveal_strlit("let");
    reveal_strlit("is_ready");
    reveal_strlit("=");
    reveal_strlit("if");
    reveal_strlit("::core::option::Option::Some(");
    let said = nothing();
    let said = next_to("::core::option::Option::Some("@, Word::SomeOpen, said);
    let said = before("let"@, Word::LetWord, said);
    let said = before("if"@, Word::IfWord, said);
    let said = before("="@, Word::Eq, said);
    let said = before("is_ready"@, Word::IsReady, said);
    let said = before("let"@, Word::LetWord, said);
    let said = before(";"@, Word::Semi, said);
    let said = next_to(".borrow_mut()"@, Word::BorrowMut, said);
    assert(".borrow_mut(); let is_ready = if let ::core::option::Option::Some("@ =~= said.text);
}

proof fn lemma_text_117()
    ensures
        says(".is_some() { false } else { match ::join_me_maybe::_impl::PollNextOnce("@, words::spelled(".is_some() { false } else { match ::join_me_maybe::_impl::PollNextOnce("@, Words::End)),
{
    words::lemma_spelled_h();
    reveal_strlit(".is_some() { false } else { match ::join_me_maybe::_impl::PollNextOnce(");
    reveal_strlit(".is_some()");
    reveal_strlit("{");
    reveal_strlit("false");
    reveal_strlit("}");
    reveal_strlit("else");
    reveal_strlit("match");
    reveal_strlit("::join_me_maybe::_impl::PollNextOnce(");
    let said = nothing();
    let said = next_to("::join_me_maybe::_impl::PollNextOnce("@, Word::PollNextOnce, said);
    let said = before("match"@, Word::MatchWord, said);
    let said = before("{"@, Word::BraceOpen, said);
    let said = before("else"@, Word::ElseWord, said);
    let said = before("}"@, Word::BraceClose, said);
    let said = before("false"@, Word::FalseWord, said);
    let said = before("{"@, Word::BraceOpen, said);
    let said = before(".is_some()"@, Word::IsSome, said);
    assert(".is_some() { false } else { match ::join_me_maybe::_impl::PollNextOnce("@ =~= said.text);
}

proof fn lemma_text_118()
    ensures
        says(".is_some_and(|flag| flag.load(::core::sync::atomic::Ordering::Relaxed)))"@, words::spelled(".is_some_and(|flag| flag.load(::core::sync::atomic::Ordering::Relaxed)))"@, Words::End)),
{
    words::lemma_spelled_h();
    reveal_strlit(".is_some_and(|flag| flag.load(::core::sync::atomic::Ordering::Relaxed)))");
    reveal_strlit(".is_some_and(|flag| flag.load(::core::sync::atomic::Ordering::Relaxed))");
    reveal_strlit(")");
    let said = nothing();
    let said = next_to(")"@, Word::Close, said);
    let said = next_to(".is_some_and(|flag| flag.load(::core::sync::atomic::Ordering::Relaxed))"@, Word::IsSomeAndLoad, said);
    assert(".is_some_and(|flag| flag.load(::core::sync::atomic::Ordering::Relaxed)))"@ =~= said.text);
}

proof fn lemma_text_119()
    ensures
        says("} else { false }; if is_ready { guard.set(::core::option::Option::None);"@, words::spelled("} else { false }; if is_ready { guard.set(::core::option::Option::None);"@, Words::End)),
{
    words::lemma_spelled_h();
    reveal_strlit("} else { false }; if is_ready { guard.set(::core::option::Option::None);");
    reveal_strlit("}");
    reveal_strlit("else");
    reveal_strlit("{");
    reveal_strlit("false");
    reveal_strlit(";");
    reveal_strlit("if");
    reveal_strlit("is_ready");
    reveal_strlit("guard");
    reveal_strlit(".set(::core::option::Option::None)");
    let said = nothing();
    let said = next_to(";"@, Word::Semi, said);
    let said = next_to(".set(::core::option::Option::None)"@, Word::SetNone, said);
    let said = next_to("guard"@, Word::Guard, said);
    let said = before("{"@, Word::BraceOpen, said);
    let said = before("is_ready"@, Word::IsReady, said);
    let said = before("if"@, Word::IfWord, said);
    let said = before(";"@, Word::Semi, said);
    let said = next_to("}"@, Word::BraceClose, said);
    let said = before("false"@, Word::FalseWord, said);
    let said = before("{"@, Word::BraceOpen, said);
    let said = before("else"@, Word::ElseWord, said);
    let said = before("}"@, Word::BraceClose, said);
    assert("} else { false }; if is_ready { guard.set(::core::option::Option::None);"@ =~= said.text);
}

proof fn lemma_text_120()
    ensures
        says(").await { ::core::task::Poll::Ready(::core::option::Option::Some(item)) => {"@, words::spelled(").await { ::core::task::Poll::Ready(::core::option::Option::Some(item)) => {"@, Words::End)),
{
    words::lemma_spelled_h();
    reveal_strlit(").await { ::core::task::Poll::Ready(::core::option::Option::Some(item)) => {");
    reveal_strlit(").await");
    reveal_strlit("{");
    reveal_strlit("::core::task::Poll::Ready(::core::option::Option::Some(item))");
    reveal_strlit("=>");
    let said = nothing();
    let said = next_to("{"@, Word::BraceOpen, said);
    let said = before("=>"@, Word::Arrow, said);
    let said = before("::core::task::Poll::Ready(::core::option::Option::Some(item))"@, Word::ReadySomeItem, said);
    let said = before("{"@, Word::BraceOpen, said);
    let said = before(").await"@, Word::CloseAwait, said);
    assert(").await { ::core::task::Poll::Ready(::core::option::Option::Some(item)) => {"@ =~= said.text);
}

proof fn lemma_text_121()
    ensures
        says(".swap(true, ::core::sync::atomic::Ordering::Relaxed); if !already_finished {"@, words::spelled(".swap(true, ::core::sync::atomic::Ordering::Relaxed); if !already_finished {"@, Words::End)),
{
    words::lemma_spelled_h();
    reveal_strlit(".swap(true, ::core::sync::atomic::Ordering::Relaxed); if !already_finished {");
    reveal_strlit(".swap(true, ::core::sync::atomic::Ordering::Relaxed)");
    reveal_strlit(";");
    reveal_strlit("if");
    reveal_strlit("!");
    reveal_strlit("already_finished");
    reveal_strlit("{");
    let said = nothing();
    let said = next_to("{"@, Word::BraceOpen, said);
    let said = before("already_finished"@, Word::AlreadyFinished, said);
    let said = next_to("!"@, Word::Bang, said);
    let said = before("if"@, Word::IfWord, said);
    let said = before(";"@, Word::Semi, said);
    let said = next_to(".swap(true, ::core::sync::atomic::Ordering::Relaxed)"@, Word::SwapTrue, said);
    assert(".swap(true, ::core::sync::atomic::Ordering::Relaxed); if !already_finished {"@ =~= said.text);
}

proof fn lemma_text_122()
    ensures
        says("= ::core::sync::atomic::AtomicBool::new(false); #[allow(unused_variables)] let"@, words::spelled("= ::core::sync::atomic::AtomicBool::new(false); #[allow(unused_variables)] let"@, Words::End)),
{
    words::lemma_spelled_h();
    reveal_strlit("= ::core::sync::atomic::AtomicBool::new(false); #[allow(unused_variables)] let");
    reveal_strlit("=");
    reveal_strlit("::core::sync::atomic::AtomicBool::new(false)");
    reveal_strlit(";");
    reveal_strlit("#[allow(unused_variables)]");
    reveal_strlit("let");
    let said = nothing();
    let said = next_to("let"@, Word::LetWord, said);
    let said = before("#[allow(unused_variables)]"@, Word::AllowUnused, said);
    let said = before(";"@, Word::Semi, said);
    let said = next_to("::core::sync::atomic::AtomicBool::new(false)"@, Word::NewFalse, said);
    let said = before("="@, Word::Eq, said);
    assert("= ::core::sync::atomic::AtomicBool::new(false); #[allow(unused_variables)] let"@ =~= said.text);
}

proof fn lemma_text_123()
    ensures
        says("= ::core::option::Option::Some(item); false } ::core::task::Poll::Ready(None) => {"@, words::spelled("= ::core::option::Option::Some(item); false } ::core::task::Poll::Ready(None) => {"@, Words::End)),
{
    words::lemma_spelled_h();
    reveal_strlit("= ::core::option::Option::Some(item); false } ::core::task::Poll::Ready(None) => {");
    reveal_strlit("=");
    reveal_strlit("::core::option::Option::Some(item)");
    reveal_strlit(";");
    reveal_strlit("false");
    reveal_strlit("}");
    reveal_strlit("::core::task::Poll::Ready(None)");
    reveal_strlit("=>");
    reveal_strlit("{");
    let said = nothing();
    let said = next_to("{"@, Word::BraceOpen, said);
    let said = before("=>"@, Word::Arrow, said);
    let said = before("::core::task::Poll::Ready(None)"@, Word::ReadyNone, said);
    let said = before("}"@, Word::BraceClose, said);
    let said = before("false"@, Word::FalseWord, said);
    let said = before(";"@, Word::Semi, said);
    let said = next_to("::core::option::Option::Some(item)"@, Word::SomeItem, said);
    let said = before("="@, Word::Eq, said);
    assert("= ::core::option::Option::Some(item); false } ::core::task::Poll::Ready(None) => {"@ =~= said.text);
}

proof fn lemma_text_124()
    ensures
        says("= ::core::option::Option::Some(output); true } ::core::task::Poll::Pending => false, }"@, words::spelled("= ::core::option::Option::Some(output); true } ::core::task::Poll::Pending => false, }"@, Words::End)),
{
    words::lemma_spelled_h();
    reveal_strlit("= ::core::option::Option::Some(output); true } ::core::task::Poll::Pending => false, }");
    reveal_strlit("=");
    reveal_strlit("::core::option::Option::Some(output)");
    reveal_strlit(";");
    reveal_strlit("true");
    reveal_strlit("}");
    reveal_strlit("::core::task::Poll::Pending");
    reveal_strlit("=>");
    reveal_strlit("false");
    reveal_strlit(",");
    let said = nothing();
    let said = next_to("}"@, Word::BraceClose, said);
    let said = before(","@, Word::Comma, said);
    let said = next_to("false"@, Word::FalseWord, said);
    let said = before("=>"@, Word::Arrow, said);
    let said = before("::core::task::Poll::Pending"@, Word::Pending, said);
    let said = before("}"@, Word::BraceClose, said);
    let said = before("true"@, Word::TrueWord, said);
    let said = before(";"@, Word::Semi, said);
    let said = next_to("::core::option::Option::Some(output)"@, Word::SomeOutput, said);
    let said = before("="@, Word::Eq, said);
    assert("= ::core::option::Option::Some(output); true } ::core::task::Poll::Pending => false, }"@ =~= said.text);
}

proof fn lemma_text_125()
    ensures
        says(".store(true, ::core::sync::atomic::Ordering::Relaxed); ::core::future::pending().await } }; let mut"@, words::spelled(".store(true, ::core::sync::atomic::Ordering::Relaxed); ::core::future::pending().await } }; let mut"@, Words::End)),
{
    words::lemma_spelled_h();
    reveal_strlit(".store(true, ::core::sync::atomic::Ordering::Relaxed); ::core::future::pending().await } }; let mut");
    reveal_strlit(".store(true, ::core::sync::atomic::Ordering::Relaxed)");
    reveal_strlit(";");
    reveal_strlit("::core::future::pending().await");
    reveal_strlit("}");
    reveal_strlit("let");
    reveal_strlit("mut");
    let said = nothing();
    let said = next_to("mut"@, Word::MutWord, said);
    let said = before("let"@, Word::LetWord, said);
    let said = before(";"@, Word::Semi, said);
    let said = next_to("}"@, Word::BraceClose, said);
    let said = before("}"@, Word::BraceClose, said);
    let said = before("::core::future::pending().await"@, Word::PendingForever, said);
    let said = before(";"@, Word::Semi, said);
    let said = next_to(".store(true, ::core::sync::atomic::Ordering::Relaxed)"@, Word::StoreTrue, said);
    assert(".store(true, ::core::sync::atomic::Ordering::Relaxed); ::core::future::pending().await } }; let mut"@ =~= said.text);
}

proof fn lemma_text_126()
    ensures
        says(": ::core::option::Option<&::core::sync::atomic::AtomicBool> = ::core::option::Option::None; let mut"@, words::spelled(": ::core::option::Option<&::core::sync::atomic::AtomicBool> = ::core::option::Option::None; let mut"@, Words::End)),
{
    words::lemma_spelled_h();
    reveal_strlit(": ::core::option::Option<&::core::sync::atomic::AtomicBool> = ::core::option::Option::None; let mut");
    reveal_strlit(":");
    reveal_strlit("::core::option::Option<&::core::sync::atomic::AtomicBool>");
    reveal_strlit("=");
    reveal_strlit("::core::option::Option::None");
    reveal_strlit(";");
    reveal_strlit("let");
    reveal_strlit("mut");
    let said = nothing();
    let said = next_to("mut"@, Word::MutWord, said);
    let said = before("let"@, Word::LetWord, said);
    let said = before(";"@, Word::Semi, said);
    let said = next_to("::core::option::Option::None"@, Word::NoneWord, said);
    let said = before("="@, Word::Eq, said);
    let said = before("::core::option::Option<&::core::sync::atomic::AtomicBool>"@, Word::FlagType, said);
    let said = before(":"@, Word::Colon, said);
    assert(": ::core::option::Option<&::core::sync::atomic::AtomicBool> = ::core::option::Option::None; let mut"@ =~= said.text);
}

proof fn lemma_text_127()
    ensures
        says(".as_mut() { let poll = ::join_me_maybe::_impl::PollOnce(unsafe { ::core::pin::Pin::new_unchecked(future) }).await; if let ::core::task::Poll::Ready(output) = poll { return output; } else if"@, words::spelled(".as_mut() { let poll = ::join_me_maybe::_impl::PollOnce(unsafe { ::core::pin::Pin::new_unchecked(future) }).await; if let ::core::task::Poll::Ready(output) = poll { return output; } else if"@, Words::End)),
{
    words::lemma_spelled_h();
    reveal_strlit(".as_mut() { let poll = ::join_me_maybe::_impl::PollOnce(unsafe { ::core::pin::Pin::new_unchecked(future) }).await; if let ::core::task::Poll::Ready(output) = poll { return output; } else if");
    reveal_strlit(".as_mut()");
    reveal_strlit("{");
    reveal_strlit("let");
    reveal_strlit("poll");
    reveal_strlit("=");
    reveal_strlit("::join_me_maybe::_impl::PollOnce(unsafe { ::core::pin::Pin::new_unchecked(future) }).await");
    reveal_strlit(";");
    reveal_strlit("if");
    reveal_strlit("::core::task::Poll::Ready(output)");
    reveal_strlit("return");
    reveal_strlit("output");
    reveal_strlit("}");
    reveal_strlit("else");
    let said = nothing();
    let said = next_to("if"@, Word::IfWord, said);
    let said = before("else"@, Word::ElseWord, said);
    let said = before("}"@, Word::BraceClose, said);
    let said = before(";"@, Word::Semi, said);
    let said = next_to("output"@, Word::OutputWord, said);
    let said = before("return"@, Word::ReturnWord, said);
    let said = before("{"@, Word::BraceOpen, said);
    let said = before("poll"@, Word::PollWord, said);
    let said = before("="@, Word::Eq, said);
    let said = before("::core::task::Poll::Ready(output)"@, Word::ReadyOutput, said);
    let said = before("let"@, Word::LetWord, said);
    let said = before("if"@, Word::IfWord, said);
    let said = before(";"@, Word::Semi, said);
    let said = next_to("::join_me_maybe::_impl::PollOnce(unsafe { ::core::pin::Pin::new_unchecked(future) }).await"@, Word::PollBody, said);
    let said = before("="@, Word::Eq, said);
    let said = before("poll"@, Word::PollWord, said);
    let said = before("let"@, Word::LetWord, said);
    let said = before("{"@, Word::BraceOpen, said);
    let said = before(".as_mut()"@, Word::AsMut, said);
    assert(".as_mut() { let poll = ::join_me_maybe::_impl::PollOnce(unsafe { ::core::pin::Pin::new_unchecked(future) }).await; if let ::core::task::Poll::Ready(output) = poll { return output; } else if"@ =~= said.text);
}

/// A text of an expansion that can be read is read as the words that stand in it, in order: each
/// word as it is written, with nothing between two words but a space.
pub proof fn text_is_read_as_written(text: Seq<char>)
    requires
        readable(words::spelled(text, Words::End)),
    ensures
        says(text, words::spelled(text, Words::End)),
{
    reveal(words::spelled);
    reveal_with_fuel(readable, 2);
    if text == "!"@ {
        lemma_text_1();
    } else if text == "("@ {
        lemma_text_2();
    } else if text == ")"@ {
        lemma_text_3();
    } else if text == ","@ {
        lemma_text_4();
    } else if text == ";"@ {
        lemma_text_5();
    } else if text == "="@ {
        lemma_text_6();
    } else if text == "{"@ {
        lemma_text_7();
    } else if text == "}"@ {
        lemma_text_8();
    } else if text == "&&"@ {
        lemma_text_9();
    } else if text == "(("@ {
        lemma_text_10();
    } else if text == "),"@ {
        lemma_text_11();
    } else if text == ");"@ {
        lemma_text_12();
    } else if text == "<="@ {
        lemma_text_13();
    } else if text == "=="@ {
        lemma_text_14();
    } else if text == "if"@ {
        lemma_text_15();
    } else if text == "||"@ {
        lemma_text_16();
    } else if text == "(),"@ {
        lemma_text_17();
    } else if text == ") ="@ {
        lemma_text_18();
    } else if text == ") {"@ {
        lemma_text_19();
    } else if text == "));"@ {
        lemma_text_20();
    } else if text == ", &"@ {
        lemma_text_21();
    } else if text == ",);"@ {
        lemma_text_22();
    } else if text == "; }"@ {
        lemma_text_23();
    } else if text == "= {"@ {
        lemma_text_24();
    } else if text == "> {"@ {
        lemma_text_25();
    } else if text == "let"@ {
        lemma_text_26();
    } else if text == "mod"@ {
        lemma_text_27();
    } else if text == "} }"@ {
        lemma_text_28();
    } else if text == ") ||"@ {
        lemma_text_29();
    } else if text == "), &"@ {
        lemma_text_30();
    } else if text == "None"@ {
        lemma_text_31();
    } else if text == "if !"@ {
        lemma_text_32();
    } else if text == "true"@ {
        lemma_text_33();
    } else if text == "drop("@ {
        lemma_text_34();
    } else if text == "false"@ {
        lemma_text_35();
    } else if text == "if !("@ {
        lemma_text_36();
    } else if text == "{ let"@ {
        lemma_text_37();
    } else if text == "); } }"@ {
        lemma_text_38();
    } else if text == "loop {"@ {
        lemma_text_39();
    } else if text == "{ if !"@ {
        lemma_text_40();
    } else if text == ")); let"@ {
        lemma_text_41();
    } else if text == "= None;"@ {
        lemma_text_42();
    } else if text == "= true;"@ {
        lemma_text_43();
    } else if text == "break ("@ {
        lemma_text_44();
    } else if text == "let mut"@ {
        lemma_text_45();
    } else if text == ".take(),"@ {
        lemma_text_46();
    } else if text == "= false;"@ {
        lemma_text_47();
    } else if text == "=> { let"@ {
        lemma_text_48();
    } else if text == "{ loop {"@ {
        lemma_text_49();
    } else if text == "(item)));"@ {
        lemma_text_50();
    } else if text == ", None, &"@ {
        lemma_text_51();
    } else if text == ".take() {"@ {
        lemma_text_52();
    } else if text == "= 0usize;"@ {
        lemma_text_53();
    } else if text == "= async |"@ {
        lemma_text_54();
    } else if text == "= true; }"@ {
        lemma_text_55();
    } else if text == "loop { if"@ {
        lemma_text_56();
    } else if text == "| { match"@ {
        lemma_text_57();
    } else if text == ".is_none()"@ {
        lemma_text_58();
    } else if text == ".is_some()"@ {
        lemma_text_59();
    } else if text == "break; } }"@ {
        lemma_text_60();
    } else if text == "{ break; }"@ {
        lemma_text_61();
    } else if text == "; continue;"@ {
        lemma_text_62();
    } else if text == "); } else if"@ {
        lemma_text_63();
    } else if text == "+ 1; break; }"@ {
        lemma_text_64();
    } else if text == ".is_some() &&"@ {
        lemma_text_65();
    } else if text == "::ArmsInput::"@ {
        lemma_text_66();
    } else if text == "= None; drop("@ {
        lemma_text_67();
    } else if text == ") { break; } }"@ {
        lemma_text_68();
    } else if text == "); } else if !"@ {
        lemma_text_69();
    } else if text == "= false; } } }"@ {
        lemma_text_70();
    } else if text == ".is_none() && ("@ {
        lemma_text_71();
    } else if text == "= false; let mut"@ {
        lemma_text_72();
    } else if text == "= 0usize; let mut"@ {
        lemma_text_73();
    } else if text == "{ let mut guard ="@ {
        lemma_text_74();
    } else if text == ") => { let _: () ="@ {
        lemma_text_75();
    } else if text == ".borrow().is_some()"@ {
        lemma_text_76();
    } else if text == "{ pub enum ArmsInput<"@ {
        lemma_text_77();
    } else if text == "{ } else { break; } }"@ {
        lemma_text_78();
    } else if text == "let already_finished ="@ {
        lemma_text_79();
    } else if text == ".is_none() { break; } }"@ {
        lemma_text_80();
    } else if text == ".as_mut().as_pin_mut() {"@ {
        lemma_text_81();
    } else if text == "#[allow(unused_variables)] let"@ {
        lemma_text_82();
    } else if text == "::core::option::Option::Some(&"@ {
        lemma_text_83();
    } else if text == "} #[allow(unreachable_code)] {"@ {
        lemma_text_84();
    } else if text == "= ::core::option::Option::None;"@ {
        lemma_text_85();
    } else if text == "= ::core::option::Option::Some("@ {
        lemma_text_86();
    } else if text == "} else { false }; if is_ready {"@ {
        lemma_text_87();
    } else if text == "}; #[allow(unreachable_code)] {"@ {
        lemma_text_88();
    } else if text == ", ::core::option::Option::Some(&"@ {
        lemma_text_89();
    } else if text == ") = guard.as_mut().as_pin_mut() {"@ {
        lemma_text_90();
    } else if text == ".set(::core::option::Option::None);"@ {
        lemma_text_91();
    } else if text == "= ::core::option::Option::None; let mut"@ {
        lemma_text_92();
    } else if text == "match ::join_me_maybe::_impl::PollOnce("@ {
        lemma_text_93();
    } else if text == "= &::join_me_maybe::_impl::new_canceller(&"@ {
        lemma_text_94();
    } else if text == "if let ::core::option::Option::Some(item) ="@ {
        lemma_text_95();
    } else if text == "= ::core::sync::atomic::AtomicUsize::new(0);"@ {
        lemma_text_96();
    } else if text == "= ::join_me_maybe::_impl::AtomicRefCell::new("@ {
        lemma_text_97();
    } else if text == ".load(::core::sync::atomic::Ordering::Relaxed)"@ {
        lemma_text_98();
    } else if text == ".take().expect(\"this arm can't be cancelled\"),"@ {
        lemma_text_99();
    } else if text == "= &::join_me_maybe::_impl::new_canceller_mut(&"@ {
        lemma_text_100();
    } else if text == "{ ::join_me_maybe::_impl::yield_once().await; }"@ {
        lemma_text_101();
    } else if text == ").await { ::core::task::Poll::Ready(output) => {"@ {
        lemma_text_102();
    } else if text == ".borrow_mut().set(::core::option::Option::None);"@ {
        lemma_text_103();
    } else if text == ".load(::core::sync::atomic::Ordering::Relaxed) {"@ {
        lemma_text_104();
    } else if text == "true } ::core::task::Poll::Pending => false, } }"@ {
        lemma_text_105();
    } else if text == ".load(::core::sync::atomic::Ordering::Relaxed) =="@ {
        lemma_text_106();
    } else if text == "= ::core::pin::pin!(::core::option::Option::Some("@ {
        lemma_text_107();
    } else if text == "= ::core::sync::atomic::AtomicBool::new(false); let"@ {
        lemma_text_108();
    } else if text == "let is_ready = if let ::core::option::Option::Some("@ {
        lemma_text_109();
    } else if text == "{ ::join_me_maybe::_impl::yield_once().await; } } }"@ {
        lemma_text_110();
    } else if text == ".fetch_add(1, ::core::sync::atomic::Ordering::Relaxed);"@ {
        lemma_text_111();
    } else if text == "= ::core::sync::atomic::AtomicBool::new(false); let mut"@ {
        lemma_text_112();
    } else if text == "= None; } if let ::core::option::Option::Some(future) ="@ {
        lemma_text_113();
    } else if text == ".fetch_add(1, ::core::sync::atomic::Ordering::Relaxed); }"@ {
        lemma_text_114();
    } else if text == ".store(false, ::core::sync::atomic::Ordering::Relaxed); } else if"@ {
        lemma_text_115();
    } else if text == ".borrow_mut(); let is_ready = if let ::core::option::Option::Some("@ {
        lemma_text_116();
    } else if text == ".is_some() { false } else { match ::join_me_maybe::_impl::PollNextOnce("@ {
        lemma_text_117();
    } else if text == ".is_some_and(|flag| flag.load(::core::sync::atomic::Ordering::Relaxed)))"@ {
        lemma_text_118();
    } else if text == "} else { false }; if is_ready { guard.set(::core::option::Option::None);"@ {
        lemma_text_119();
    } else if text == ").await { ::core::task::Poll::Ready(::core::option::Option::Some(item)) => {"@ {
        lemma_text_120();
    } else if text == ".swap(true, ::core::sync::atomic::Ordering::Relaxed); if !already_finished {"@ {
        lemma_text_121();
    } else if text == "= ::core::sync::atomic::AtomicBool::new(false); #[allow(unused_variables)] let"@ {
        lemma_text_122();
    } else if text == "= ::core::option::Option::Some(item); false } ::core::task::Poll::Ready(None) => {"@ {
        lemma_text_123();
    } else if text == "= ::core::option::Option::Some(output); true } ::core::task::Poll::Pending => false, }"@ {
        lemma_text_124();
    } else if text == ".store(true, ::core::sync::atomic::Ordering::Relaxed); ::core::future::pending().await } }; let mut"@ {
        lemma_text_125();
    } else if text == ": ::core::option::Option<&::core::sync::atomic::AtomicBool> = ::core::option::Option::None; let mut"@ {
        lemma_text_126();
    } else if text == ".as_mut() { let poll = ::join_me_maybe::_impl::PollOnce(unsafe { ::core::pin::Pin::new_unchecked(future) }).await; if let ::core::task::Poll::Ready(output) = poll { return output; } else if"@ {
        lemma_text_127();
    }
}

} // verus!
