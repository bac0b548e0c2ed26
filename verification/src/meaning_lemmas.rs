//! What each form of the syntax trees does, one fact for each form.

use vstd::prelude::*;

use crate::code::{
    BodyArms, Cond, Do, Handle, Params, Place, Returns, Stmt, Value, Variants, Verdict,
};
use crate::driver::{Action, ArmState, Body, BodyKind};
use crate::expansion::Name;
use crate::meaning::{Answer, Flow, Function, Mem};
use crate::meaning;
use crate::syntax::Region;

verus! {

pub broadcast proof fn lemma_holds_count_is<V>(name: Name, n: usize, m: Mem<V>)
    ensures
        #[trigger] meaning::holds(Cond::CountIs(name, n), m) == (name == Name::DefinitelyFinishedCount && m.count == n),
{
    reveal_with_fuel(meaning::holds, 2);
}

pub broadcast proof fn lemma_holds_flag<V>(name: Name, m: Mem<V>)
    ensures
        #[trigger] meaning::holds(Cond::Flag(name), m) == (m.flag(name)),
{
    reveal_with_fuel(meaning::holds, 2);
}

pub broadcast proof fn lemma_holds_var<V>(name: Name, m: Mem<V>)
    ensures
        #[trigger] meaning::holds(Cond::Var(name), m) == (match name {
            Name::ShouldRunFinally(i) => m.arms[i as int].should_run_finally,
            Name::BodyIsMaybe => m.body_is_maybe,
            Name::ItemConsumedFromLiveStream => m.consumed,
            _ => false,
        }),
{
    reveal_with_fuel(meaning::holds, 2);
}

pub broadcast proof fn lemma_holds_is_ready<V>(m: Mem<V>)
    ensures
        #[trigger] meaning::holds(Cond::IsReady, m) == (m.is_ready),
{
    reveal_with_fuel(meaning::holds, 2);
}

pub broadcast proof fn lemma_holds_already_finished<V>(m: Mem<V>)
    ensures
        #[trigger] meaning::holds(Cond::AlreadyFinished, m) == (m.already_finished),
{
    reveal_with_fuel(meaning::holds, 2);
}

pub broadcast proof fn lemma_holds_filled<V>(name: Name, m: Mem<V>)
    ensures
        #[trigger] meaning::holds(Cond::Filled(name), m) == (meaning::filled(name, m) && (name is Arm ==> m.keeps(name, false))),
{
    reveal_with_fuel(meaning::holds, 2);
}

pub broadcast proof fn lemma_holds_empty<V>(name: Name, m: Mem<V>)
    ensures
        #[trigger] meaning::holds(Cond::Empty(name), m) == (!meaning::filled(name, m)),
{
    reveal_with_fuel(meaning::holds, 2);
}

pub broadcast proof fn lemma_holds_cell_filled<V>(name: Name, m: Mem<V>)
    ensures
        #[trigger] meaning::holds(Cond::CellFilled(name), m) == (meaning::filled(name, m) && m.keeps(name, true)),
{
    reveal_with_fuel(meaning::holds, 2);
}

pub broadcast proof fn lemma_holds_flag_of<V>(name: Name, m: Mem<V>)
    ensures
        #[trigger] meaning::holds(Cond::FlagOf(name), m) == (name == Name::BodyCancelledFlag && (m.body_flag matches Some(flag)
            && m.flag(flag))),
{
    reveal_with_fuel(meaning::holds, 2);
}

pub broadcast proof fn lemma_holds_at_most<V>(name: Name, n: usize, m: Mem<V>)
    ensures
        #[trigger] meaning::holds(Cond::AtMost(name, n), m) == (name == Name::FirstArm && m.first <= n),
{
    reveal_with_fuel(meaning::holds, 2);
}

pub broadcast proof fn lemma_holds_equals<V>(name: Name, n: usize, m: Mem<V>)
    ensures
        #[trigger] meaning::holds(Cond::Equals(name, n), m) == (name == Name::NextArm && m.next == n),
{
    reveal_with_fuel(meaning::holds, 2);
}

pub broadcast proof fn lemma_holds_not<V>(c: Cond, m: Mem<V>)
    ensures
        #[trigger] meaning::holds(Cond::Not(Box::new(c)), m) == (!meaning::holds(c, m)),
{
    reveal_with_fuel(meaning::holds, 2);
}

pub broadcast proof fn lemma_holds_and<V>(c: Cond, d: Cond, m: Mem<V>)
    ensures
        #[trigger] meaning::holds(Cond::And(Box::new(c), Box::new(d)), m) == (meaning::holds(c, m) && meaning::holds(d, m)),
{
    reveal_with_fuel(meaning::holds, 2);
}

pub broadcast proof fn lemma_holds_or<V>(c: Cond, d: Cond, m: Mem<V>)
    ensures
        #[trigger] meaning::holds(Cond::Or(Box::new(c), Box::new(d)), m) == (meaning::holds(c, m) || meaning::holds(d, m)),
{
    reveal_with_fuel(meaning::holds, 2);
}

pub broadcast proof fn lemma_holds_paren<V>(c: Cond, m: Mem<V>)
    ensures
        #[trigger] meaning::holds(Cond::Paren(Box::new(c)), m) == (meaning::holds(c, m)),
{
    reveal_with_fuel(meaning::holds, 2);
}

pub broadcast proof fn lemma_assign_bool<V>(b: bool, name: Name, m: Mem<V>)
    ensures
        #[trigger] meaning::assign(name, Value::Bool(b), m) == (match name {
            Name::ShouldRunFinally(i) => m.set(
                i,
                ArmState { should_run_finally: b, ..m.arms[i as int] },
            ),
            Name::BodyIsMaybe => Mem { body_is_maybe: b, ..m },
            Name::ItemConsumedFromLiveStream => Mem { consumed: b, ..m },
            _ => m.stuck(),
        }),
{
    reveal(meaning::assign);
}

pub broadcast proof fn lemma_assign_nothing<V>(name: Name, m: Mem<V>)
    ensures
        #[trigger] meaning::assign(name, Value::Nothing, m) == (match name {
            Name::RunBodyFuture => Mem { body: None, ..m },
            Name::BodyCancelledFlag => Mem { body_flag: None, ..m },
            _ => m.set_option(name, None),
        }),
{
    reveal(meaning::assign);
}

pub broadcast proof fn lemma_assign_zero<V>(name: Name, m: Mem<V>)
    ensures
        #[trigger] meaning::assign(name, Value::Zero, m) == (match name {
            Name::NextArm => Mem { next: 0, ..m },
            _ => m.stuck(),
        }),
{
    reveal(meaning::assign);
}

pub broadcast proof fn lemma_assign_number<V>(n: usize, name: Name, m: Mem<V>)
    ensures
        #[trigger] meaning::assign(name, Value::Number(n), m) == (match name {
            Name::NextArm => Mem { next: n, ..m },
            _ => m.stuck(),
        }),
{
    reveal(meaning::assign);
}

pub broadcast proof fn lemma_assign_number_after<V>(n: usize, name: Name, m: Mem<V>)
    ensures
        #[trigger] meaning::assign(name, Value::NumberAfter(n), m) == (match name {
            Name::NextArm => Mem { next: (n + 1) as usize, ..m },
            _ => m.stuck(),
        }),
{
    reveal(meaning::assign);
}

pub broadcast proof fn lemma_assign_copy<V>(from: Name, name: Name, m: Mem<V>)
    ensures
        #[trigger] meaning::assign(name, Value::Copy(from), m) == (if name == Name::FirstArm && from == Name::NextArm {
            Mem { first: m.next, ..m }
        } else {
            m.stuck()
        }),
{
    reveal(meaning::assign);
}

pub broadcast proof fn lemma_assign_output<V>(name: Name, m: Mem<V>)
    ensures
        #[trigger] meaning::assign(name, Value::Output, m) == m.set_option(name, m.output),
{
    reveal(meaning::assign);
}

pub broadcast proof fn lemma_assign_item<V>(name: Name, m: Mem<V>)
    ensures
        #[trigger] meaning::assign(name, Value::Item, m) == m.set_option(name, m.item),
{
    reveal(meaning::assign);
}

pub broadcast proof fn lemma_assign_flag_ref<V>(flag: Name, name: Name, m: Mem<V>)
    ensures
        #[trigger] meaning::assign(name, Value::FlagRef(flag), m) == (match name {
            Name::BodyCancelledFlag => Mem { body_flag: Some(flag), ..m },
            _ => m.stuck(),
        }),
{
    reveal(meaning::assign);
}

pub broadcast proof fn lemma_assign_run<V>(
    function: Name,
    module: Name,
    variant: Name,
    name: Name,
    m: Mem<V>,
)
    ensures
        #[trigger] meaning::assign(name, Value::Run(function, module, variant), m) == (match (variant, m.item) {
            (Name::Variant(i), Some(item)) => if name == Name::RunBodyFuture && function
                == Name::RunBodyFn && meaning::takes(m, module, variant, true) {
                Mem { body: Some(Body { arm: i, kind: BodyKind::Item }), ..m }.act(
                    Action::StartBody(i, item),
                )
            } else {
                m.stuck()
            },
            _ => m.stuck(),
        }),
{
    reveal(meaning::assign);
}

pub broadcast proof fn lemma_assign_run_finally<V>(
    function: Name,
    module: Name,
    variant: Name,
    name: Name,
    m: Mem<V>,
)
    ensures
        #[trigger] meaning::assign(name, Value::RunFinally(function, module, variant), m) == (match variant {
            Name::FinallyVariant(i) => if name == Name::RunBodyFuture && function
                == Name::RunBodyFn && meaning::takes(m, module, variant, false) {
                Mem { body: Some(Body { arm: i, kind: BodyKind::Finally }), ..m }.act(
                    Action::StartFinally(i),
                )
            } else {
                m.stuck()
            },
            _ => m.stuck(),
        }),
{
    reveal(meaning::assign);
}

pub broadcast proof fn lemma_assign_new_flag<V>(name: Name, m: Mem<V>)
    ensures
        #[trigger] meaning::assign(name, Value::NewFlag, m) == m.set_flag(name, false),
{
    reveal(meaning::assign);
}

pub broadcast proof fn lemma_assign_new_count<V>(name: Name, m: Mem<V>)
    ensures
        #[trigger] meaning::assign(name, Value::NewCount, m) == (if name == Name::DefinitelyFinishedCount {
            Mem { count: 0, ..m }
        } else {
            m.stuck()
        }),
{
    reveal(meaning::assign);
}

pub broadcast proof fn lemma_carry_out_assign<V>(name: Name, value: Value, m: Mem<V>)
    ensures
        #[trigger] meaning::carry_out(Do::Assign(name, value), m) == meaning::assign(name, value, m),
{
    reveal(meaning::carry_out);
}

pub broadcast proof fn lemma_carry_out_let<V>(name: Name, value: Value, m: Mem<V>)
    ensures
        #[trigger] meaning::carry_out(Do::Let(name, value), m) == meaning::assign(name, value, m),
{
    reveal(meaning::carry_out);
}

pub broadcast proof fn lemma_carry_out_let_mut<V>(name: Name, value: Value, m: Mem<V>)
    ensures
        #[trigger] meaning::carry_out(Do::LetMut(name, value), m) == meaning::assign(name, value, m),
{
    reveal(meaning::carry_out);
}

pub broadcast proof fn lemma_carry_out_let_mut_flag_ref<V>(name: Name, value: Value, m: Mem<V>)
    ensures
        #[trigger] meaning::carry_out(Do::LetMutFlagRef(name, value), m) == meaning::assign(name, value, m),
{
    reveal(meaning::carry_out);
}

pub broadcast proof fn lemma_carry_out_store<V>(name: Name, b: bool, m: Mem<V>)
    ensures
        #[trigger] meaning::carry_out(Do::Store(name, b), m) == m.set_flag(name, b),
{
    reveal(meaning::carry_out);
}

pub broadcast proof fn lemma_carry_out_add_one<V>(name: Name, m: Mem<V>)
    ensures
        #[trigger] meaning::carry_out(Do::AddOne(name), m) == (if name == Name::DefinitelyFinishedCount {
            Mem { count: (m.count + 1) as usize, ..m }
        } else {
            m.stuck()
        }),
{
    reveal(meaning::carry_out);
}

pub broadcast proof fn lemma_carry_out_swap<V>(name: Name, m: Mem<V>)
    ensures
        #[trigger] meaning::carry_out(Do::Swap(name), m) == (Mem { already_finished: m.flag(name), ..m.set_flag(name, true) }),
{
    reveal(meaning::carry_out);
}

pub broadcast proof fn lemma_carry_out_drop<V>(name: Name, m: Mem<V>)
    ensures
        #[trigger] meaning::carry_out(Do::Drop(name), m) == (match name {
            Name::RunBodyFuture => Mem { body: None, ..m },
            Name::RunBodyFn => Mem { function: None, ..m },
            _ => m.stuck(),
        }),
{
    reveal(meaning::carry_out);
}

pub broadcast proof fn lemma_carry_out_clear<V>(name: Name, m: Mem<V>)
    ensures
        #[trigger] meaning::carry_out(Do::Clear(name), m) == m.clear(name, false),
{
    reveal(meaning::carry_out);
}

pub broadcast proof fn lemma_carry_out_clear_cell<V>(name: Name, m: Mem<V>)
    ensures
        #[trigger] meaning::carry_out(Do::ClearCell(name), m) == m.clear(name, true),
{
    reveal(meaning::carry_out);
}

pub broadcast proof fn lemma_carry_out_clear_guard<V>(m: Mem<V>)
    ensures
        #[trigger] meaning::carry_out(Do::ClearGuard, m) == (match m.guard {
            Some(name) => m.clear(name, true),
            None => m.stuck(),
        }),
{
    reveal(meaning::carry_out);
}

pub broadcast proof fn lemma_carry_out_lock<V>(name: Name, m: Mem<V>)
    ensures
        #[trigger] meaning::carry_out(Do::Lock(name), m) == (if m.keeps(name, true) {
            Mem { guard: Some(name), ..m }
        } else {
            m.stuck()
        }),
{
    reveal(meaning::carry_out);
}

pub broadcast proof fn lemma_carry_out_pin<V>(name: Name, _mutable: bool, input: Region, m: Mem<V>)
    ensures
        #[trigger] meaning::carry_out(Do::Pin(name, _mutable, input), m) == (match name {
            Name::Arm(i) => Mem {
                pinned: m.pinned.insert(i, input),
                cells: m.cells.insert(i, false),
                ..m.set(i, ArmState { live: true, ..m.arms[i as int] })
            },
            _ => m.stuck(),
        }),
{
    reveal(meaning::carry_out);
}

pub broadcast proof fn lemma_carry_out_cell<V>(name: Name, m: Mem<V>)
    ensures
        #[trigger] meaning::carry_out(Do::Cell(name), m) == (match name {
            Name::Arm(i) => if m.keeps(name, false) {
                Mem { cells: m.cells.insert(i, true), ..m }
            } else {
                m.stuck()
            },
            _ => m.stuck(),
        }),
{
    reveal(meaning::carry_out);
}

pub broadcast proof fn lemma_carry_out_label<V>(label: usize, handle: Handle, m: Mem<V>)
    ensures
        #[trigger] meaning::carry_out(Do::Label(label, handle), m) == (Mem { labels: m.labels.insert(label, handle), ..m }),
{
    reveal(meaning::carry_out);
}

pub broadcast proof fn lemma_carry_out_label_mut<V>(
    label: usize,
    handle: Handle,
    arm: Name,
    m: Mem<V>,
)
    ensures
        #[trigger] meaning::carry_out(Do::LabelMut(label, handle, arm), m) == (Mem {
            labels_mut: m.labels_mut.insert(label, handle),
            reached: m.reached.insert(label, arm),
            ..m
        }),
{
    reveal(meaning::carry_out);
}

pub broadcast proof fn lemma_carry_out_poll_body<V>(m: Mem<V>)
    ensures
        #[trigger] meaning::carry_out(Do::PollBody, m) == meaning::poll_body(m),
{
    reveal(meaning::carry_out);
}

pub broadcast proof fn lemma_carry_out_return<V>(m: Mem<V>)
    ensures
        #[trigger] meaning::carry_out(Do::Return, m) == (Mem { flow: Flow::Returned, ..m.note(Action::Return) }),
{
    reveal(meaning::carry_out);
}

pub broadcast proof fn lemma_carry_out_yield<V>(m: Mem<V>)
    ensures
        #[trigger] meaning::carry_out(Do::Yield, m) == ({
            let acted = m.act(Action::Yield);
            if m.replies.len() == 0 {
                acted
            } else {
                acted.cancel_all(m.labels, m.replies[0].cancels)
            }
        }),
{
    reveal(meaning::carry_out);
}

pub broadcast proof fn lemma_carry_out_break<V>(m: Mem<V>)
    ensures
        #[trigger] meaning::carry_out(Do::Break, m) == (Mem { flow: Flow::Break, ..m }),
{
    reveal(meaning::carry_out);
}

pub broadcast proof fn lemma_carry_out_continue<V>(m: Mem<V>)
    ensures
        #[trigger] meaning::carry_out(Do::Continue, m) == (Mem { flow: Flow::Continue, ..m }),
{
    reveal(meaning::carry_out);
}

pub broadcast proof fn lemma_judge_bool<V>(b: bool, m: Mem<V>)
    ensures
        #[trigger] meaning::judge(Verdict::Bool(b), m) == (m, b),
{
    reveal_with_fuel(meaning::judge, 2);
}

pub broadcast proof fn lemma_judge_after<V>(step: Do, v: Verdict, m: Mem<V>)
    ensures
        #[trigger] meaning::judge(Verdict::After(step, Box::new(v)), m) == ({
            let after = meaning::carry_out(step, m);
            if after.flow is On {
                meaning::judge(v, after)
            } else {
                (after, false)
            }
        }),
{
    reveal_with_fuel(meaning::judge, 2);
}

pub broadcast proof fn lemma_judge_if_else<V>(c: Cond, v: Verdict, w: Verdict, m: Mem<V>)
    ensures
        #[trigger] meaning::judge(Verdict::IfElse(c, Box::new(v), Box::new(w)), m) == (if meaning::holds(c, m) {
            meaning::judge(v, m)
        } else {
            meaning::judge(w, m)
        }),
{
    reveal_with_fuel(meaning::judge, 2);
}

pub broadcast proof fn lemma_judge_future<V>(
    name: Name,
    ready: Verdict,
    pending: Verdict,
    m: Mem<V>,
)
    ensures
        #[trigger] meaning::judge(Verdict::Future(name, Box::new(ready), Box::new(pending)), m) == (match m.bound {
            Some((bound, i)) => if bound != name {
                (m.stuck(), false)
            } else if m.replies.len() == 0 {
                (m.act(Action::PollArm(i)), false)
            } else {
                let after = m.act(Action::PollArm(i)).cancel_all(
                    m.labels,
                    m.replies[0].cancels,
                );
                match m.replies[0].answer {
                    Answer::Value(value) => meaning::judge(ready, Mem { output: Some(value), ..after }),
                    _ => meaning::judge(pending, after),
                }
            },
            None => (m.stuck(), false),
        }),
{
    reveal_with_fuel(meaning::judge, 2);
}

pub broadcast proof fn lemma_judge_stream<V>(
    name: Name,
    item: Verdict,
    end: Verdict,
    pending: Verdict,
    m: Mem<V>,
)
    ensures
        #[trigger] meaning::judge(Verdict::Stream(name, Box::new(item), Box::new(end), Box::new(pending)), m) == (match m.bound {
            Some((bound, i)) => if bound != name {
                (m.stuck(), false)
            } else if m.replies.len() == 0 {
                (m.act(Action::PollArm(i)), false)
            } else {
                let after = m.act(Action::PollArm(i)).cancel_all(
                    m.labels,
                    m.replies[0].cancels,
                );
                match m.replies[0].answer {
                    Answer::Value(value) => meaning::judge(item, Mem { item: Some(value), ..after }),
                    Answer::End => meaning::judge(end, after),
                    Answer::Pending => meaning::judge(pending, after),
                }
            },
            None => (m.stuck(), false),
        }),
{
    reveal_with_fuel(meaning::judge, 2);
}

pub broadcast proof fn lemma_run_skip<V>(m: Mem<V>)
    ensures
        #[trigger] meaning::run(Stmt::Skip, m) == m,
{
    reveal_with_fuel(meaning::run, 2);
}

pub broadcast proof fn lemma_run_then<V>(s: Stmt, t: Stmt, m: Mem<V>)
    ensures
        #[trigger] meaning::run(Stmt::Then(Box::new(s), Box::new(t)), m) == ({
            let after = meaning::run(s, m);
            if after.flow is On {
                meaning::run(t, after)
            } else {
                after
            }
        }),
{
    reveal_with_fuel(meaning::run, 2);
}

pub broadcast proof fn lemma_run_simple<V>(step: Do, m: Mem<V>)
    ensures
        #[trigger] meaning::run(Stmt::Simple(step), m) == meaning::carry_out(step, m),
{
    reveal_with_fuel(meaning::run, 2);
}

pub broadcast proof fn lemma_run_if<V>(c: Cond, s: Stmt, m: Mem<V>)
    ensures
        #[trigger] meaning::run(Stmt::If(c, Box::new(s)), m) == (if meaning::holds(c, m) {
            meaning::run(s, m)
        } else {
            m
        }),
{
    reveal_with_fuel(meaning::run, 2);
}

pub broadcast proof fn lemma_run_if_else<V>(c: Cond, s: Stmt, t: Stmt, m: Mem<V>)
    ensures
        #[trigger] meaning::run(Stmt::IfElse(c, Box::new(s), Box::new(t)), m) == (if meaning::holds(c, m) {
            meaning::run(s, m)
        } else {
            meaning::run(t, m)
        }),
{
    reveal_with_fuel(meaning::run, 2);
}

pub broadcast proof fn lemma_run_if_else_if<V>(c: Cond, s: Stmt, t: Stmt, m: Mem<V>)
    ensures
        #[trigger] meaning::run(Stmt::IfElseIf(c, Box::new(s), Box::new(t)), m) == (if meaning::holds(c, m) {
            meaning::run(s, m)
        } else {
            meaning::run(t, m)
        }),
{
    reveal_with_fuel(meaning::run, 2);
}

pub broadcast proof fn lemma_run_loop<V>(s: Stmt, m: Mem<V>)
    ensures
        #[trigger] meaning::run(Stmt::Loop(Box::new(s)), m) == meaning::rounds(s, m, 2),
{
    reveal_with_fuel(meaning::run, 2);
}

pub broadcast proof fn lemma_run_let_ready<V>(
    place: Place,
    name: Name,
    verdict: Verdict,
    absent: bool,
    m: Mem<V>,
)
    ensures
        #[trigger] meaning::run(Stmt::LetReady(place, name, verdict, absent), m) == (match meaning::arm_at(place, m) {
            Some(i) => if m.arms[i as int].live {
                let judged = meaning::judge(verdict, Mem { bound: Some((name, i)), ..m });
                Mem { is_ready: judged.1, ..judged.0 }
            } else {
                Mem { is_ready: absent, ..m }
            },
            None => m.stuck(),
        }),
{
    reveal_with_fuel(meaning::run, 2);
}

pub broadcast proof fn lemma_run_if_body<V>(name: Name, s: Stmt, m: Mem<V>)
    ensures
        #[trigger] meaning::run(Stmt::IfBody(name, Box::new(s)), m) == (if meaning::filled(name, m) {
            meaning::run(s, m)
        } else {
            m
        }),
{
    reveal_with_fuel(meaning::run, 2);
}

pub broadcast proof fn lemma_run_if_returned<V>(s: Stmt, t: Stmt, m: Mem<V>)
    ensures
        #[trigger] meaning::run(Stmt::IfReturned(Box::new(s), Box::new(t)), m) == (if m.returned {
            meaning::run(s, m)
        } else {
            meaning::run(t, m)
        }),
{
    reveal_with_fuel(meaning::run, 2);
}

pub broadcast proof fn lemma_run_if_taken<V>(name: Name, s: Stmt, m: Mem<V>)
    ensures
        #[trigger] meaning::run(Stmt::IfTaken(name, Box::new(s)), m) == (match name {
            Name::ArmItem(i) => match m.arms[i as int].item {
                Some(item) => meaning::run(s, Mem { item: Some(item), ..m.set_option(name, None) }),
                None => m,
            },
            _ => m.stuck(),
        }),
{
    reveal_with_fuel(meaning::run, 2);
}

pub broadcast proof fn lemma_run_break_with<V>(values: Returns, m: Mem<V>)
    ensures
        #[trigger] meaning::run(Stmt::BreakWith(values), m) == (match meaning::outputs(values, m) {
            Some(outputs) => Mem { flow: Flow::Finished(outputs), ..m.note(Action::Finish) },
            None => Mem { flow: Flow::Panicked, ..m },
        }),
{
    reveal_with_fuel(meaning::run, 2);
}

pub broadcast proof fn lemma_run_module<V>(
    name: Name,
    params: Params,
    variants: Variants,
    m: Mem<V>,
)
    ensures
        #[trigger] meaning::run(Stmt::Module(name, params, variants), m) == (Mem {
            module: Some((name, params, variants)),
            ..m
        }),
{
    reveal_with_fuel(meaning::run, 2);
}

pub broadcast proof fn lemma_run_function<V>(
    _function: Name,
    _param: Name,
    arms: BodyArms,
    flag: Name,
    b: bool,
    m: Mem<V>,
)
    ensures
        #[trigger] meaning::run(Stmt::Function(_function, _param, arms, flag, b), m) == (Mem {
            function: Some(
                Function { arms, flag, value: b, labels: m.labels_mut, reached: m.reached },
            ),
            ..m
        }),
{
    reveal_with_fuel(meaning::run, 2);
}

pub broadcast group group_meaning {
    lemma_holds_count_is,
    lemma_holds_flag,
    lemma_holds_var,
    lemma_holds_is_ready,
    lemma_holds_already_finished,
    lemma_holds_filled,
    lemma_holds_empty,
    lemma_holds_cell_filled,
    lemma_holds_flag_of,
    lemma_holds_at_most,
    lemma_holds_equals,
    lemma_holds_not,
    lemma_holds_and,
    lemma_holds_or,
    lemma_holds_paren,
    lemma_assign_bool,
    lemma_assign_nothing,
    lemma_assign_zero,
    lemma_assign_number,
    lemma_assign_number_after,
    lemma_assign_copy,
    lemma_assign_output,
    lemma_assign_item,
    lemma_assign_flag_ref,
    lemma_assign_run,
    lemma_assign_run_finally,
    lemma_assign_new_flag,
    lemma_assign_new_count,
    lemma_carry_out_assign,
    lemma_carry_out_let,
    lemma_carry_out_let_mut,
    lemma_carry_out_let_mut_flag_ref,
    lemma_carry_out_store,
    lemma_carry_out_add_one,
    lemma_carry_out_swap,
    lemma_carry_out_drop,
    lemma_carry_out_clear,
    lemma_carry_out_clear_cell,
    lemma_carry_out_clear_guard,
    lemma_carry_out_lock,
    lemma_carry_out_pin,
    lemma_carry_out_cell,
    lemma_carry_out_label,
    lemma_carry_out_label_mut,
    lemma_carry_out_poll_body,
    lemma_carry_out_return,
    lemma_carry_out_yield,
    lemma_carry_out_break,
    lemma_carry_out_continue,
    lemma_judge_bool,
    lemma_judge_after,
    lemma_judge_if_else,
    lemma_judge_future,
    lemma_judge_stream,
    lemma_run_skip,
    lemma_run_then,
    lemma_run_simple,
    lemma_run_if,
    lemma_run_if_else,
    lemma_run_if_else_if,
    lemma_run_loop,
    lemma_run_let_ready,
    lemma_run_if_body,
    lemma_run_if_returned,
    lemma_run_if_taken,
    lemma_run_break_with,
    lemma_run_module,
    lemma_run_function,
}

} // verus!
