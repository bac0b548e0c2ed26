//! The pieces of an expansion spell the program of [`crate::program`].

use vstd::prelude::*;

use crate::code::{Cond, Do, Stmt};
use crate::code;
use crate::code_lemmas;
use crate::expansion::{Name, Outline, Part};
use crate::expansion;
use crate::program;
use crate::shape::{ArmShape, Bump, Kind};
use crate::syntax::JoinMeMaybeArm;
use crate::words::{Word, Words};
use crate::words;

verus! {

pub broadcast proof fn lemma_definitely_finished(total: usize, rest: Words)
    ensures
        #[trigger] words::words(expansion::definitely_finished(total), rest) == code::cond_text(
            program::definitely_finished(total),
            rest,
        ),
{
    broadcast use {words::group_words, code_lemmas::group_text};

    reveal_with_fuel(words::words_from, 16);
    words::lemma_spelled();
}

pub broadcast proof fn lemma_cancelled(i: usize, rest: Words)
    ensures
        #[trigger] words::words(expansion::cancelled(i), rest) == code::cond_text(
            Cond::Flag(Name::Cancelled(i)),
            rest,
        ),
{
    broadcast use {words::group_words, code_lemmas::group_text};

    reveal_with_fuel(words::words_from, 16);
    words::lemma_spelled();
}

pub broadcast proof fn lemma_drop_body(rest: Words)
    ensures
        #[trigger] words::words(expansion::drop_body(), rest) == code::text(
            program::drop_body(),
            rest,
        ),
{
    broadcast use {words::group_words, code_lemmas::group_text};

    reveal_with_fuel(words::words_from, 16);
    words::lemma_spelled();
}

pub broadcast proof fn lemma_body_is_cancelled(total: usize, rest: Words)
    ensures
        #[trigger] words::words(expansion::body_is_cancelled(total), rest) == code::cond_text(
            program::body_is_cancelled(total),
            rest,
        ),
{
    broadcast use {words::group_words, code_lemmas::group_text};

    reveal_with_fuel(words::words_from, 16);
    words::lemma_spelled();
}

pub broadcast proof fn lemma_canceller(arm: JoinMeMaybeArm, i: usize, rest: Words)
    ensures
        #[trigger] words::words(expansion::canceller_part(arm, i), rest) == code::text(
            program::canceller(arm, i),
            rest,
        ),
{
    broadcast use {words::group_words, code_lemmas::group_text};

    reveal_with_fuel(words::words_from, 16);
    words::lemma_spelled();
}

pub broadcast proof fn lemma_canceller_mut(arm: JoinMeMaybeArm, i: usize, rest: Words)
    ensures
        #[trigger] words::words(expansion::canceller_mut_part(arm, i), rest) == code::text(
            program::canceller_mut(arm, i),
            rest,
        ),
{
    broadcast use {words::group_words, code_lemmas::group_text};

    reveal_with_fuel(words::words_from, 16);
    words::lemma_spelled();
}

pub broadcast proof fn lemma_pinned(arm: JoinMeMaybeArm, i: usize, rest: Words)
    ensures
        #[trigger] words::words(expansion::pinned(arm, i), rest) == code::text(
            program::pinned(arm, i),
            rest,
        ),
{
    broadcast use {words::group_words, code_lemmas::group_text};

    reveal_with_fuel(words::words_from, 16);
    words::lemma_spelled();
}

pub broadcast proof fn lemma_variables(kind: Kind, i: usize, rest: Words)
    ensures
        #[trigger] words::words(expansion::variables(kind, i), rest) == code::text(
            program::variables(kind, i),
            rest,
        ),
{
    broadcast use {words::group_words, code_lemmas::group_text};

    reveal_with_fuel(words::words_from, 16);
    words::lemma_spelled();
}

pub broadcast proof fn lemma_poll_is_ready(shape: ArmShape, i: usize, rest: Words)
    ensures
        #[trigger] words::words(expansion::poll_is_ready(shape, i), rest) == code::verdict_text(
            program::poll_is_ready(shape, i),
            rest,
        ),
{
    broadcast use {words::group_words, code_lemmas::group_text};

    reveal_with_fuel(words::words_from, 16);
    words::lemma_spelled();
}

pub broadcast proof fn lemma_bump_count(bump: Bump, i: usize, rest: Words)
    ensures
        #[trigger] words::words(expansion::bump_count(bump, i), rest) == code::text(
            program::bump_count(bump, i),
            rest,
        ),
{
    broadcast use {words::group_words, code_lemmas::group_text};

    reveal_with_fuel(words::words_from, 16);
    words::lemma_spelled();
}

pub broadcast proof fn lemma_check(total: usize, rest: Words)
    ensures
        #[trigger] words::words(expansion::check_definitely_finished(total), rest) == code::text(
            program::check_definitely_finished(total),
            rest,
        ),
{
    broadcast use {words::group_words, code_lemmas::group_text};

    reveal_with_fuel(words::words_from, 16);
    words::lemma_spelled();
}

pub broadcast proof fn lemma_leave_for_body(shape: ArmShape, i: usize, rest: Words)
    ensures
        #[trigger] words::words(expansion::leave_for_body(shape, i), rest) == code::text(
            program::leave_for_body(shape, i),
            rest,
        ),
{
    broadcast use {words::group_words, code_lemmas::group_text};

    reveal_with_fuel(words::words_from, 16);
    words::lemma_spelled();
}

pub broadcast proof fn lemma_drop_arm(shape: ArmShape, i: usize, rest: Words)
    ensures
        #[trigger] words::words(expansion::drop_arm(shape, i), rest) == code::text(
            program::drop_arm(shape, i),
            rest,
        ),
{
    broadcast use {words::group_words, code_lemmas::group_text};

    reveal_with_fuel(words::words_from, 16);
    words::lemma_spelled();
}

pub broadcast proof fn lemma_set_body_flags(shape: ArmShape, i: usize, rest: Words)
    ensures
        #[trigger] words::words(expansion::set_body_flags(shape, i), rest) == code::text(
            program::set_body_flags(shape, i),
            rest,
        ),
{
    broadcast use {words::group_words, code_lemmas::group_text};

    reveal_with_fuel(words::words_from, 16);
    words::lemma_spelled();
}

pub broadcast proof fn lemma_is_live(shape: ArmShape, i: usize, rest: Words)
    ensures
        #[trigger] words::words(expansion::is_live(shape, i), rest) == code::cond_text(
            program::is_live(shape, i),
            rest,
        ),
{
    broadcast use {words::group_words, code_lemmas::group_text};

    reveal_with_fuel(words::words_from, 16);
    words::lemma_spelled();
}

pub broadcast group group_fragments {
    lemma_definitely_finished,
    lemma_cancelled,
    lemma_drop_body,
    lemma_body_is_cancelled,
    lemma_canceller,
    lemma_canceller_mut,
    lemma_pinned,
    lemma_variables,
    lemma_poll_is_ready,
    lemma_bump_count,
    lemma_check,
    lemma_leave_for_body,
    lemma_drop_arm,
    lemma_set_body_flags,
    lemma_is_live,
}

pub proof fn lemma_poll_and_count(shape: ArmShape, i: usize, total: usize, rest: Words)
    ensures
        words::words(expansion::poll_and_count(shape, i, total), rest) == code::text(
            program::poll_and_count(shape, i, total),
            rest,
        ),
{
    broadcast use {words::group_words, code_lemmas::group_text, group_fragments};

    reveal_with_fuel(words::words_from, 16);
    words::lemma_spelled();
}

pub proof fn lemma_drop_labeled(shape: ArmShape, i: usize, rest: Words)
    ensures
        words::words(expansion::drop_labeled_part(shape, i), rest) == code::text(
            program::drop_labeled(shape, i),
            rest,
        ),
{
    broadcast use {words::group_words, code_lemmas::group_text, group_fragments};

    reveal_with_fuel(words::words_from, 16);
    words::lemma_spelled();
}

pub proof fn lemma_start_finally(shape: ArmShape, i: usize, rest: Words)
    ensures
        words::words(expansion::start_finally(shape, i), rest) == code::text(
            program::start_finally(shape, i),
            rest,
        ),
{
    broadcast use {words::group_words, code_lemmas::group_text, group_fragments};

    reveal_with_fuel(words::words_from, 16);
    words::lemma_spelled();
}

pub proof fn lemma_try_body(shape: ArmShape, i: usize, rest: Words)
    ensures
        words::words(expansion::try_body_part(shape, i), rest) == code::text(
            program::try_body(shape, i),
            rest,
        ),
{
    broadcast use {words::group_words, code_lemmas::group_text, group_fragments};

    reveal_with_fuel(words::words_from, 16);
    words::lemma_spelled();
    lemma_start_finally(shape, i, rest);
}

pub proof fn lemma_poll(shape: ArmShape, i: usize, outline: Outline, rest: Words)
    ensures
        words::words(expansion::poll_part(shape, i, outline), rest) == code::text(
            program::poll(shape, i, outline),
            rest,
        ),
{
    broadcast use {words::group_words, code_lemmas::group_text, group_fragments};

    reveal_with_fuel(words::words_from, 16);
    words::lemma_spelled();
    let after = if outline.bodies {
        words::words(expansion::leave_for_body(shape, i), code::close_brace(rest))
    } else {
        rest
    };
    lemma_poll_and_count(shape, i, outline.total, after);
}

pub proof fn lemma_part(which: Part, arm: JoinMeMaybeArm, i: usize, outline: Outline, rest: Words)
    requires
        program::is_stmt(which),
    ensures
        words::words(expansion::part(which, arm, i, outline), rest) == code::text(
            program::part(which, arm, i, outline),
            rest,
        ),
{
    broadcast use {words::group_words, code_lemmas::group_text, group_fragments};

    let shape = arm.spec_shape();
    match which {
        Part::Poll => lemma_poll(shape, i, outline, rest),
        Part::DropLabeled => lemma_drop_labeled(shape, i, rest),
        Part::TryBody => lemma_try_body(shape, i, rest),
        _ => {},
    }
}

pub broadcast proof fn lemma_parts(
    which: Part,
    arms: Seq<JoinMeMaybeArm>,
    n: nat,
    outline: Outline,
    rest: Words,
)
    requires
        program::is_stmt(which),
    ensures
        #[trigger] words::words(expansion::parts(which, arms, n, outline), rest) == code::text(
            program::parts(which, arms, n, outline),
            rest,
        ),
    decreases n,
{
    broadcast use {words::group_words, code_lemmas::group_text};

    if n > 0 {
        let last = program::part(which, arms[n - 1], (n - 1) as usize, outline);
        lemma_part(which, arms[n - 1], (n - 1) as usize, outline, rest);
        lemma_parts(which, arms, (n - 1) as nat, outline, code::text(last, rest));
    }
}

pub broadcast proof fn lemma_returns(
    arms: Seq<JoinMeMaybeArm>,
    n: nat,
    outline: Outline,
    rest: Words,
)
    ensures
        #[trigger] words::words(expansion::parts(Part::Return, arms, n, outline), rest) == code::returns_text(
            program::values(arms, n),
            rest,
        ),
    decreases n,
{
    broadcast use words::group_words;

    reveal_with_fuel(words::words_from, 16);
    reveal_with_fuel(code::returns_text, 3);
    words::lemma_spelled();
    if n > 0 {
        let last = expansion::part(Part::Return, arms[n - 1], (n - 1) as usize, outline);
        lemma_returns(arms, (n - 1) as nat, outline, words::words(last, rest));
    }
}

pub broadcast proof fn lemma_params(
    arms: Seq<JoinMeMaybeArm>,
    n: nat,
    outline: Outline,
    rest: Words,
)
    ensures
        #[trigger] words::words(expansion::parts(Part::TypeParam, arms, n, outline), rest) == code::params_text(
            program::params(arms, n),
            rest,
        ),
    decreases n,
{
    broadcast use words::group_words;

    reveal_with_fuel(words::words_from, 16);
    reveal_with_fuel(code::params_text, 3);
    words::lemma_spelled();
    if n > 0 {
        let last = expansion::part(Part::TypeParam, arms[n - 1], (n - 1) as usize, outline);
        lemma_params(arms, (n - 1) as nat, outline, words::words(last, rest));
    }
}

pub broadcast proof fn lemma_variants(
    arms: Seq<JoinMeMaybeArm>,
    n: nat,
    outline: Outline,
    rest: Words,
)
    ensures
        #[trigger] words::words(expansion::parts(Part::Variant, arms, n, outline), rest) == code::variants_text(
            program::variants(arms, n),
            rest,
        ),
    decreases n,
{
    broadcast use words::group_words;

    reveal_with_fuel(words::words_from, 16);
    reveal_with_fuel(code::variants_text, 3);
    words::lemma_spelled();
    if n > 0 {
        let last = expansion::part(Part::Variant, arms[n - 1], (n - 1) as usize, outline);
        lemma_variants(arms, (n - 1) as nat, outline, words::words(last, rest));
    }
}

pub broadcast proof fn lemma_body_arms(
    arms: Seq<JoinMeMaybeArm>,
    n: nat,
    outline: Outline,
    rest: Words,
)
    ensures
        #[trigger] words::words(expansion::parts(Part::BodyArm, arms, n, outline), rest) == code::body_arms_text(
            program::body_arms(arms, n),
            rest,
        ),
    decreases n,
{
    broadcast use words::group_words;

    reveal_with_fuel(words::words_from, 16);
    reveal_with_fuel(code::body_arms_text, 3);
    words::lemma_spelled();
    if n > 0 {
        let last = expansion::part(Part::BodyArm, arms[n - 1], (n - 1) as usize, outline);
        lemma_body_arms(arms, (n - 1) as nat, outline, words::words(last, rest));
    }
}

pub broadcast group group_parts {
    lemma_parts,
    lemma_returns,
    lemma_params,
    lemma_variants,
    lemma_body_arms,
}

pub proof fn lemma_drop_cancelled(arms: Seq<JoinMeMaybeArm>, outline: Outline, rest: Words)
    ensures
        words::words(expansion::drop_cancelled(arms, outline), rest) == code::text(
            program::drop_cancelled(arms, outline),
            rest,
        ),
{
    broadcast use {words::group_words, code_lemmas::group_text, group_fragments, group_parts};

    reveal_with_fuel(words::words_from, 16);
    words::lemma_spelled();
}

pub proof fn lemma_run_body_items(arms: Seq<JoinMeMaybeArm>, outline: Outline, rest: Words)
    ensures
        words::words(expansion::run_body_items(arms, outline), rest) == code::text(
            program::run_body_items(arms, outline),
            rest,
        ),
{
    broadcast use {words::group_words, code_lemmas::group_text, group_fragments, group_parts};

    reveal_with_fuel(words::words_from, 16);
    words::lemma_spelled();
}

pub proof fn lemma_run_bodies(arms: Seq<JoinMeMaybeArm>, outline: Outline, rest: Words)
    ensures
        words::words(expansion::run_bodies_loop(arms, outline), rest) == code::text(
            Stmt::Loop(Box::new(program::run_bodies(arms, outline))),
            rest,
        ),
{
    broadcast use {words::group_words, code_lemmas::group_text, group_fragments, group_parts};

    reveal_with_fuel(words::words_from, 16);
    words::lemma_spelled();
}

pub proof fn lemma_run_and_sweep(arms: Seq<JoinMeMaybeArm>, outline: Outline, rest: Words)
    ensures
        words::words(expansion::run_and_sweep(arms, outline), rest) == code::text(
            Stmt::Loop(Box::new(program::run_and_sweep(arms, outline))),
            rest,
        ),
{
    broadcast use {words::group_words, code_lemmas::group_text, group_fragments, group_parts};

    reveal_with_fuel(words::words_from, 16);
    words::lemma_spelled();
    let check = program::when(
        program::not(
            program::paren(
                program::and(
                    Cond::Filled(Name::RunBodyFuture),
                    program::body_is_cancelled(outline.total),
                ),
            ),
        ),
        program::step(Do::Break),
    );
    let checked = code::text(check, code::close_brace(rest));
    lemma_drop_cancelled(arms, outline, checked);
    lemma_run_bodies(
        arms,
        outline,
        code::text(program::drop_cancelled(arms, outline), checked),
    );
}

pub proof fn lemma_beginning(arms: Seq<JoinMeMaybeArm>, outline: Outline, rest: Words)
    ensures
        words::words(expansion::beginning(arms, outline), rest) == code::brace(
            code::text(program::beginning(arms, outline), rest),
        ),
{
    broadcast use {words::group_words, code_lemmas::group_text, group_parts};

    reveal_with_fuel(words::words_from, 16);
    words::lemma_spelled();
    if outline.bodies {
        lemma_run_body_items(arms, outline, rest);
    }
}

pub proof fn lemma_one_pass(arms: Seq<JoinMeMaybeArm>, outline: Outline, rest: Words)
    ensures
        words::words(expansion::one_pass(arms, outline), rest) == words::word(
            Word::LoopWord,
            code::brace(
                code::text(
                    program::take_up_polling(arms.len() as usize, outline.bodies),
                    code::text(
                        program::poll_all(arms, outline),
                        code::text(
                            program::drop_cancelled(arms, outline),
                            code::text(program::bodies_or_none(arms, outline), rest),
                        ),
                    ),
                ),
            ),
        ),
{
    broadcast use {words::group_words, code_lemmas::group_text, group_fragments, group_parts};

    reveal_with_fuel(words::words_from, 16);
    words::lemma_spelled();
    let bodies = code::text(program::bodies_or_none(arms, outline), rest);
    lemma_drop_cancelled(arms, outline, bodies);
    if outline.bodies {
        lemma_run_and_sweep(arms, outline, rest);
    }
}

pub proof fn lemma_end_or_wait(arms: Seq<JoinMeMaybeArm>, outline: Outline)
    ensures
        words::words(expansion::end_or_wait(arms, outline), Words::End) == code::text(
            program::end_or_wait(arms, outline),
            code::close_brace(code::close_brace(Words::End)),
        ),
{
    broadcast use {words::group_words, code_lemmas::group_text, group_fragments, group_parts};

    reveal_with_fuel(words::words_from, 16);
    words::lemma_spelled();
}

/// The pieces of an expansion spell the program, word by word.
pub proof fn expansion_spells_the_program(arms: Seq<JoinMeMaybeArm>)
    ensures
        words::words(expansion::expansion(arms), Words::End) == program::block_text(
            program::program(arms),
        ),
{
    broadcast use {words::group_words, code_lemmas::group_text};

    let outline = expansion::outline(arms);
    let end = code::text(
        program::end_or_wait(arms, outline),
        code::close_brace(code::close_brace(Words::End)),
    );
    lemma_end_or_wait(arms, outline);
    lemma_one_pass(arms, outline, end);
    lemma_beginning(
        arms,
        outline,
        words::words(expansion::one_pass(arms, outline), end),
    );
}

} // verus!
