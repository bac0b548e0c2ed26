//! What the programs of [`crate::code`] do.
//!
//! A program acts on its variables and on the world outside it: the futures, the streams and the
//! bodies that it polls, and whoever wakes it up. The world answers each act with a [`Reply`],
//! which also says which arms were cancelled by their labels meanwhile. A program is given the
//! replies beforehand; it stops when it acts and no reply is left.

use vstd::prelude::*;

use crate::canceller;
use crate::code::{
    BodyArm, BodyArms, Cond, Do, Handle, Params, Place, Returns, Stmt, Value, Variants, Verdict,
};
use crate::driver::{Action, ArmState, Body, BodyKind, Output};
use crate::expansion::Name;
use crate::syntax::{JoinMeMaybeArm, Region};

verus! {

/// What a future, a stream or a body answers when it is polled.
pub enum Answer<V> {
    /// It waits.
    Pending,
    /// A future or a body has come to this value, or a stream has this item.
    Value(V),
    /// A stream has ended, or a body has returned from the enclosing function.
    End,
}

/// What happens outside when the program acts: the answer, if one is asked for, and the arms that
/// are cancelled by their labels. Nothing happens outside when a body is started, for it does
/// nothing before it is polled.
pub struct Reply<V> {
    pub answer: Answer<V>,
    pub cancels: Seq<usize>,
}

/// An act, and what the program holds at that time: which futures and streams, and which body.
pub struct Seen<V> {
    pub action: Action<V>,
    pub held: Seq<bool>,
    pub body: Option<Body>,
}

/// Where a statement leads.
pub enum Flow<V> {
    /// To the next statement.
    On,
    /// Out of the loop.
    Break,
    /// Back to the start of the loop.
    Continue,
    /// Out of the program, with these values.
    Finished(Seq<Output<V>>),
    /// Out of the enclosing function.
    Returned,
    /// Nowhere yet: the world has not replied.
    Waiting,
    /// Nowhere: a value that was expected is not there.
    Panicked,
    /// Nowhere: the loop goes round without doing anything.
    Spinning,
    /// Nowhere: the statement makes no sense.
    Stuck,
}

/// The function that runs the bodies, and the cancellers that the labels stand for where it is
/// written.
pub struct Function {
    pub arms: BodyArms,
    pub flag: Name,
    pub value: bool,
    pub labels: Map<usize, Handle>,
    /// The arms that bodies reach through those cancellers, by label.
    pub reached: Map<usize, Name>,
}

/// The variables of a program, and the world outside it.
#[verifier::ext_equal]
pub struct Mem<V> {
    /// The variables of each arm.
    pub arms: Seq<ArmState<V>>,
    pub count: usize,
    pub body: Option<Body>,
    pub consumed: bool,
    pub next: usize,
    pub first: usize,
    pub body_is_maybe: bool,
    pub body_flag: Option<Name>,
    pub no_return: bool,
    pub is_ready: bool,
    pub already_finished: bool,
    pub item: Option<V>,
    pub output: Option<V>,
    /// Whether the body that was polled last has returned.
    pub returned: bool,
    pub guard: Option<Name>,
    /// The name under which an arm is polled, and the arm.
    pub bound: Option<(Name, usize)>,
    pub function: Option<Function>,
    /// The module of the input of the bodies, its type parameters and its variants.
    pub module: Option<(Name, Params, Variants)>,
    /// What stands for the future or the stream of each arm that is pinned.
    pub pinned: Map<usize, Region>,
    /// Whether the future or the stream of each arm that is pinned is kept in a cell.
    pub cells: Map<usize, bool>,
    /// The label of each arm that has one.
    pub names: Seq<Option<usize>>,
    /// The cancellers that futures and streams see, by label.
    pub labels: Map<usize, Handle>,
    /// The cancellers that bodies see, by label.
    pub labels_mut: Map<usize, Handle>,
    /// The arms that bodies reach through those cancellers, by label.
    pub reached: Map<usize, Name>,
    pub replies: Seq<Reply<V>>,
    pub log: Seq<Seen<V>>,
    pub flow: Flow<V>,
}

pub open spec fn held<V>(arms: Seq<ArmState<V>>) -> Seq<bool> {
    arms.map_values(|arm: ArmState<V>| arm.live)
}

impl<V> Mem<V> {
    pub open spec fn set(self, i: usize, arm: ArmState<V>) -> Mem<V> {
        Mem { arms: self.arms.update(i as int, arm), ..self }
    }

    pub open spec fn stuck(self) -> Mem<V> {
        Mem { flow: Flow::Stuck, ..self }
    }

    /// Remembers an act.
    pub open spec fn note(self, action: Action<V>) -> Mem<V> {
        Mem {
            log: self.log.push(Seen { action, held: held(self.arms), body: self.body }),
            ..self
        }
    }

    /// Acts, and takes the next reply if there is one.
    pub open spec fn act(self, action: Action<V>) -> Mem<V> {
        let noted = self.note(action);
        if self.replies.len() == 0 {
            Mem { flow: Flow::Waiting, ..noted }
        } else {
            Mem { replies: self.replies.drop_first(), ..noted }
        }
    }

    /// The value of a flag.
    pub open spec fn flag(self, name: Name) -> bool {
        match name {
            Name::Cancelled(i) => self.arms[i as int].cancelled,
            Name::Finished(i) => self.arms[i as int].finished,
            Name::RunBodyNoReturn => self.no_return,
            _ => false,
        }
    }

    /// Sets a flag.
    pub open spec fn set_flag(self, name: Name, b: bool) -> Mem<V> {
        match name {
            Name::Cancelled(i) => self.set(i, ArmState { cancelled: b, ..self.arms[i as int] }),
            Name::Finished(i) => self.set(i, ArmState { finished: b, ..self.arms[i as int] }),
            Name::RunBodyNoReturn => Mem { no_return: b, ..self },
            _ => self.stuck(),
        }
    }

    /// Cancels through a canceller, as [`canceller::Canceller::cancel`] does.
    pub open spec fn cancel_by(self, handle: Handle) -> Mem<V> {
        let cancelled = self.set_flag(handle.cancelled, true);
        if handle.count != Name::DefinitelyFinishedCount {
            self.stuck()
        } else {
            match handle.finished {
                Some(finished) => Mem {
                    count: canceller::count_after_cancel(Some(self.flag(finished)), self.count),
                    ..cancelled.set_flag(finished, true)
                },
                None => Mem {
                    count: canceller::count_after_cancel(None, self.count),
                    ..cancelled
                },
            }
        }
    }

    /// Cancels arm `i` by its label, where the labels stand for these cancellers.
    pub open spec fn cancel(self, labels: Map<usize, Handle>, i: usize) -> Mem<V> {
        match self.names[i as int] {
            Some(label) => if labels.contains_key(label) {
                self.cancel_by(labels[label])
            } else {
                self.stuck()
            },
            None => self.stuck(),
        }
    }

    /// Cancels arms by their labels, one after the other.
    pub open spec fn cancel_all(self, labels: Map<usize, Handle>, cancels: Seq<usize>) -> Mem<V>
        decreases cancels.len(),
    {
        if cancels.len() == 0 {
            self
        } else {
            self.cancel_all(labels, cancels.drop_last()).cancel(labels, cancels.last())
        }
    }

    /// The variable that holds what the body of an arm has yet to consume, or the like.
    pub open spec fn set_option(self, name: Name, value: Option<V>) -> Mem<V> {
        match name {
            Name::ArmItem(i) => self.set(i, ArmState { item: value, ..self.arms[i as int] }),
            Name::ArmOutput(i) => self.set(i, ArmState { output: value, ..self.arms[i as int] }),
            _ => self.stuck(),
        }
    }

    /// Whether a name stands for a future or a stream, in a cell or not.
    pub open spec fn keeps(self, name: Name, cell: bool) -> bool {
        match name {
            Name::Arm(i) => self.cells.contains_key(i) && self.cells[i] == cell,
            _ => false,
        }
    }

    /// Drops the future or the stream that a name stands for, in a cell or not.
    pub open spec fn clear(self, name: Name, cell: bool) -> Mem<V> {
        match name {
            Name::Arm(i) => if self.keeps(name, cell) {
                self.set(i, ArmState { live: false, ..self.arms[i as int] })
            } else {
                self.stuck()
            },
            _ => self.stuck(),
        }
    }
}

/// The value of a condition.
#[verifier::opaque]
pub open spec fn holds<V>(cond: Cond, m: Mem<V>) -> bool
    decreases cond,
{
    match cond {
        Cond::CountIs(name, n) => name == Name::DefinitelyFinishedCount && m.count == n,
        Cond::Flag(name) => m.flag(name),
        Cond::Var(name) => match name {
            Name::ShouldRunFinally(i) => m.arms[i as int].should_run_finally,
            Name::BodyIsMaybe => m.body_is_maybe,
            Name::ItemConsumedFromLiveStream => m.consumed,
            _ => false,
        },
        Cond::IsReady => m.is_ready,
        Cond::AlreadyFinished => m.already_finished,
        Cond::Filled(name) => filled(name, m) && (name is Arm ==> m.keeps(name, false)),
        Cond::Empty(name) => !filled(name, m),
        Cond::CellFilled(name) => filled(name, m) && m.keeps(name, true),
        Cond::FlagOf(name) => name == Name::BodyCancelledFlag && (m.body_flag matches Some(flag)
            && m.flag(flag)),
        Cond::AtMost(name, n) => name == Name::FirstArm && m.first <= n,
        Cond::Equals(name, n) => name == Name::NextArm && m.next == n,
        Cond::Not(c) => !holds(*c, m),
        Cond::And(c, d) => holds(*c, m) && holds(*d, m),
        Cond::Or(c, d) => holds(*c, m) || holds(*d, m),
        Cond::Paren(c) => holds(*c, m),
    }
}

/// Whether a variable holds something.
pub open spec fn filled<V>(name: Name, m: Mem<V>) -> bool {
    match name {
        Name::ArmItem(i) => m.arms[i as int].item is Some,
        Name::Arm(i) => m.arms[i as int].live,
        Name::RunBodyFuture => m.body is Some,
        _ => false,
    }
}

/// The arm of the function that runs the body for this variant.
pub open spec fn body_arm(arms: BodyArms, variant: Name) -> Option<BodyArm>
    decreases arms,
{
    match arms {
        BodyArms::Nothing => None,
        BodyArms::Arm(before, arm) => if arm.variant == variant {
            Some(arm)
        } else {
            body_arm(*before, variant)
        },
    }
}

/// The variant that a body was started on.
pub open spec fn variant(body: Body) -> Name {
    match body.kind {
        BodyKind::Item => Name::Variant(body.arm),
        BodyKind::Finally => Name::FinallyVariant(body.arm),
    }
}

/// Whether there is a type parameter of this name.
pub open spec fn has_param(params: Params, name: Name) -> bool
    decreases params,
{
    match params {
        Params::Nothing => false,
        Params::Param(before, param) => param == name || has_param(*before, name),
    }
}

/// Whether the input of the bodies has this variant, with an item or without.
pub open spec fn declared(
    params: Params,
    variants: Variants,
    variant: Name,
    with_item: bool,
) -> bool
    decreases variants,
{
    match variants {
        Variants::Nothing => false,
        Variants::Item(before, name, param) => if name == variant {
            with_item && has_param(params, param)
        } else {
            declared(params, *before, variant, with_item)
        },
        Variants::Finally(before, name) => if name == variant {
            !with_item
        } else {
            declared(params, *before, variant, with_item)
        },
    }
}

/// Whether the function that runs the bodies takes this variant, with an item or without.
pub open spec fn takes<V>(m: Mem<V>, module: Name, variant: Name, with_item: bool) -> bool {
    &&& m.module matches Some((name, params, variants)) && name == module && declared(
        params,
        variants,
        variant,
        with_item,
    )
    &&& m.function matches Some(function) && (body_arm(function.arms, variant) matches Some(arm)
        && arm.module == module && with_item == (arm.pattern is Some))
}

/// Puts what stands on the right of a `=` into a variable.
#[verifier::opaque]
pub open spec fn assign<V>(name: Name, value: Value, m: Mem<V>) -> Mem<V> {
    match value {
        Value::Bool(b) => match name {
            Name::ShouldRunFinally(i) => m.set(
                i,
                ArmState { should_run_finally: b, ..m.arms[i as int] },
            ),
            Name::BodyIsMaybe => Mem { body_is_maybe: b, ..m },
            Name::ItemConsumedFromLiveStream => Mem { consumed: b, ..m },
            _ => m.stuck(),
        },
        Value::Nothing => match name {
            Name::RunBodyFuture => Mem { body: None, ..m },
            Name::BodyCancelledFlag => Mem { body_flag: None, ..m },
            _ => m.set_option(name, None),
        },
        Value::Zero => match name {
            Name::NextArm => Mem { next: 0, ..m },
            _ => m.stuck(),
        },
        Value::Number(n) => match name {
            Name::NextArm => Mem { next: n, ..m },
            _ => m.stuck(),
        },
        Value::NumberAfter(n) => match name {
            Name::NextArm => Mem { next: (n + 1) as usize, ..m },
            _ => m.stuck(),
        },
        Value::Copy(from) => if name == Name::FirstArm && from == Name::NextArm {
            Mem { first: m.next, ..m }
        } else {
            m.stuck()
        },
        Value::Output => m.set_option(name, m.output),
        Value::Item => m.set_option(name, m.item),
        Value::FlagRef(flag) => match name {
            Name::BodyCancelledFlag => Mem { body_flag: Some(flag), ..m },
            _ => m.stuck(),
        },
        Value::Run(function, module, variant) => match (variant, m.item) {
            (Name::Variant(i), Some(item)) => if name == Name::RunBodyFuture && function
                == Name::RunBodyFn && takes(m, module, variant, true) {
                Mem { body: Some(Body { arm: i, kind: BodyKind::Item }), ..m }.act(
                    Action::StartBody(i, item),
                )
            } else {
                m.stuck()
            },
            _ => m.stuck(),
        },
        Value::RunFinally(function, module, variant) => match variant {
            Name::FinallyVariant(i) => if name == Name::RunBodyFuture && function
                == Name::RunBodyFn && takes(m, module, variant, false) {
                Mem { body: Some(Body { arm: i, kind: BodyKind::Finally }), ..m }.act(
                    Action::StartFinally(i),
                )
            } else {
                m.stuck()
            },
            _ => m.stuck(),
        },
        Value::NewFlag => m.set_flag(name, false),
        Value::NewCount => if name == Name::DefinitelyFinishedCount {
            Mem { count: 0, ..m }
        } else {
            m.stuck()
        },
    }
}

/// Polls the running body. A body that comes to its end puts its value where the function says,
/// and sets the flag of the function; after that it only waits.
pub open spec fn poll_body<V>(m: Mem<V>) -> Mem<V> {
    match (m.body, m.function) {
        (Some(body), Some(function)) => {
            let acted = m.act(Action::PollBody(body.arm));
            if m.replies.len() == 0 {
                acted
            } else {
                let after = acted.cancel_all(function.labels, m.replies[0].cancels);
                match m.replies[0].answer {
                    Answer::Pending => Mem { returned: false, ..after },
                    Answer::End => Mem { returned: true, ..after },
                    Answer::Value(value) => match body_arm(function.arms, variant(body)) {
                        Some(arm) => Mem {
                            returned: false,
                            ..match arm.sink {
                                Some((_temporary, sink)) => after.set_option(sink, Some(value)),
                                None => after,
                            }.set_flag(function.flag, function.value)
                        },
                        None => after.stuck(),
                    },
                }
            }
        },
        _ => m.stuck(),
    }
}

/// Carries out a statement without statements in it.
#[verifier::opaque]
pub open spec fn carry_out<V>(step: Do, m: Mem<V>) -> Mem<V> {
    match step {
        Do::Assign(name, value) => assign(name, value, m),
        Do::Let(name, value) => assign(name, value, m),
        Do::LetMut(name, value) => assign(name, value, m),
        Do::LetMutFlagRef(name, value) => assign(name, value, m),
        Do::Store(name, b) => m.set_flag(name, b),
        Do::AddOne(name) => if name == Name::DefinitelyFinishedCount {
            Mem { count: (m.count + 1) as usize, ..m }
        } else {
            m.stuck()
        },
        Do::Swap(name) => Mem { already_finished: m.flag(name), ..m.set_flag(name, true) },
        Do::Drop(name) => match name {
            Name::RunBodyFuture => Mem { body: None, ..m },
            Name::RunBodyFn => Mem { function: None, ..m },
            _ => m.stuck(),
        },
        Do::Clear(name) => m.clear(name, false),
        Do::ClearCell(name) => m.clear(name, true),
        Do::ClearGuard => match m.guard {
            Some(name) => m.clear(name, true),
            None => m.stuck(),
        },
        Do::Lock(name) => if m.keeps(name, true) {
            Mem { guard: Some(name), ..m }
        } else {
            m.stuck()
        },
        Do::Pin(name, _mutable, input) => match name {
            Name::Arm(i) => Mem {
                pinned: m.pinned.insert(i, input),
                cells: m.cells.insert(i, false),
                ..m.set(i, ArmState { live: true, ..m.arms[i as int] })
            },
            _ => m.stuck(),
        },
        Do::Cell(name) => match name {
            Name::Arm(i) => if m.keeps(name, false) {
                Mem { cells: m.cells.insert(i, true), ..m }
            } else {
                m.stuck()
            },
            _ => m.stuck(),
        },
        Do::Label(label, handle) => Mem { labels: m.labels.insert(label, handle), ..m },
        Do::LabelMut(label, handle, arm) => Mem {
            labels_mut: m.labels_mut.insert(label, handle),
            reached: m.reached.insert(label, arm),
            ..m
        },
        Do::PollBody => poll_body(m),
        Do::Return => Mem { flow: Flow::Returned, ..m.note(Action::Return) },
        Do::Yield => {
            let acted = m.act(Action::Yield);
            if m.replies.len() == 0 {
                acted
            } else {
                acted.cancel_all(m.labels, m.replies[0].cancels)
            }
        },
        Do::Break => Mem { flow: Flow::Break, ..m },
        Do::Continue => Mem { flow: Flow::Continue, ..m },
    }
}

/// What a block that says whether an arm has finished does, and what it says.
#[verifier::opaque]
pub open spec fn judge<V>(verdict: Verdict, m: Mem<V>) -> (Mem<V>, bool)
    decreases verdict,
{
    match verdict {
        Verdict::Bool(b) => (m, b),
        Verdict::After(step, v) => {
            let after = carry_out(step, m);
            if after.flow is On {
                judge(*v, after)
            } else {
                (after, false)
            }
        },
        Verdict::IfElse(c, v, w) => if holds(c, m) {
            judge(*v, m)
        } else {
            judge(*w, m)
        },
        Verdict::Future(name, ready, pending) => match m.bound {
            Some((bound, i)) => if bound != name {
                (m.stuck(), false)
            } else if m.replies.len() == 0 {
                (m.act(Action::PollArm(i)), false)
            } else {
                let after = m.act(Action::PollArm(i)).cancel_all(
                    m.labels,
                    m.replies[0].cancels,
                );
                match m.replies[0].answer {
                    Answer::Value(value) => judge(*ready, Mem { output: Some(value), ..after }),
                    _ => judge(*pending, after),
                }
            },
            None => (m.stuck(), false),
        },
        Verdict::Stream(name, item, end, pending) => match m.bound {
            Some((bound, i)) => if bound != name {
                (m.stuck(), false)
            } else if m.replies.len() == 0 {
                (m.act(Action::PollArm(i)), false)
            } else {
                let after = m.act(Action::PollArm(i)).cancel_all(
                    m.labels,
                    m.replies[0].cancels,
                );
                match m.replies[0].answer {
                    Answer::Value(value) => judge(*item, Mem { item: Some(value), ..after }),
                    Answer::End => judge(*end, after),
                    Answer::Pending => judge(*pending, after),
                }
            },
            None => (m.stuck(), false),
        },
    }
}

/// The arm whose future or stream a place holds.
pub open spec fn arm_at<V>(place: Place, m: Mem<V>) -> Option<usize> {
    match place {
        Place::Var(Name::Arm(i)) => if m.keeps(Name::Arm(i), false) {
            Some(i)
        } else {
            None
        },
        Place::Guard => match m.guard {
            Some(Name::Arm(i)) => Some(i),
            _ => None,
        },
        _ => None,
    }
}

/// The values that a program gives, if those that are expected are there.
pub open spec fn outputs<V>(values: Returns, m: Mem<V>) -> Option<Seq<Output<V>>>
    decreases values,
{
    match values {
        Returns::Nothing => Some(Seq::empty()),
        Returns::Unit(before) => match outputs(*before, m) {
            Some(earlier) => Some(earlier.push(Output::Unit)),
            None => None,
        },
        Returns::Take(before, name) => match (outputs(*before, m), name) {
            (Some(earlier), Name::ArmOutput(i)) => Some(
                earlier.push(Output::Maybe(m.arms[i as int].output)),
            ),
            _ => None,
        },
        Returns::Expect(before, name) => match (outputs(*before, m), name) {
            (Some(earlier), Name::ArmOutput(i)) => match m.arms[i as int].output {
                Some(value) => Some(earlier.push(Output::Value(value))),
                None => None,
            },
            _ => None,
        },
    }
}

/// Runs a statement.
#[verifier::opaque]
pub open spec fn run<V>(stmt: Stmt, m: Mem<V>) -> Mem<V>
    decreases stmt, 0nat, 0nat, 0nat,
{
    match stmt {
        Stmt::Skip => m,
        Stmt::Then(s, t) => {
            let after = run(*s, m);
            if after.flow is On {
                run(*t, after)
            } else {
                after
            }
        },
        Stmt::Simple(step) => carry_out(step, m),
        Stmt::If(c, s) => if holds(c, m) {
            run(*s, m)
        } else {
            m
        },
        Stmt::IfElse(c, s, t) => if holds(c, m) {
            run(*s, m)
        } else {
            run(*t, m)
        },
        Stmt::IfElseIf(c, s, t) => if holds(c, m) {
            run(*s, m)
        } else {
            run(*t, m)
        },
        Stmt::Loop(s) => rounds(*s, m, 2),
        Stmt::LetReady(place, name, verdict, absent) => match arm_at(place, m) {
            Some(i) => if m.arms[i as int].live {
                let judged = judge(verdict, Mem { bound: Some((name, i)), ..m });
                Mem { is_ready: judged.1, ..judged.0 }
            } else {
                Mem { is_ready: absent, ..m }
            },
            None => m.stuck(),
        },
        Stmt::IfBody(name, s) => if filled(name, m) {
            run(*s, m)
        } else {
            m
        },
        Stmt::IfReturned(s, t) => if m.returned {
            run(*s, m)
        } else {
            run(*t, m)
        },
        Stmt::IfTaken(name, s) => match name {
            Name::ArmItem(i) => match m.arms[i as int].item {
                Some(item) => run(*s, Mem { item: Some(item), ..m.set_option(name, None) }),
                None => m,
            },
            _ => m.stuck(),
        },
        Stmt::BreakWith(values) => match outputs(values, m) {
            Some(outputs) => Mem { flow: Flow::Finished(outputs), ..m.note(Action::Finish) },
            None => Mem { flow: Flow::Panicked, ..m },
        },
        Stmt::Module(name, params, variants) => Mem {
            module: Some((name, params, variants)),
            ..m
        },
        Stmt::Function(_function, _param, arms, flag, b) => Mem {
            function: Some(
                Function { arms, flag, value: b, labels: m.labels_mut, reached: m.reached },
            ),
            ..m
        },
    }
}

/// Runs a loop, round by round. A loop that goes round too often without asking anything of the
/// world will never end.
pub open spec fn rounds<V>(stmt: Stmt, m: Mem<V>, idle: nat) -> Mem<V>
    decreases stmt, 1nat, m.replies.len(), idle,
{
    let after = run(stmt, m);
    let next = Mem { flow: Flow::On, ..after };
    match after.flow {
        Flow::On | Flow::Continue => if next.replies.len() < m.replies.len() {
            rounds(stmt, next, 2)
        } else if next.replies.len() == m.replies.len() && idle > 0 {
            rounds(stmt, next, (idle - 1) as nat)
        } else {
            Mem { flow: Flow::Spinning, ..after }
        },
        Flow::Break => next,
        _ => after,
    }
}

/// The variables before a program has run, for a join of these arms. None has a value yet.
pub open spec fn blank<V>(arms: Seq<JoinMeMaybeArm>, replies: Seq<Reply<V>>) -> Mem<V> {
    Mem {
        arms: arms.map_values(
            |arm: JoinMeMaybeArm|
                ArmState { live: false, ..ArmState::<V>::initial(arm.spec_shape()) },
        ),
        count: 0,
        body: None,
        consumed: false,
        next: 0,
        first: 0,
        body_is_maybe: false,
        body_flag: None,
        no_return: false,
        is_ready: false,
        already_finished: false,
        item: None,
        output: None,
        returned: false,
        guard: None,
        bound: None,
        function: None,
        module: None,
        pinned: Map::empty(),
        cells: Map::empty(),
        names: arms.map_values(|arm: JoinMeMaybeArm| arm.cancel_label),
        labels: Map::empty(),
        labels_mut: Map::empty(),
        reached: Map::empty(),
        replies,
        log: Seq::empty(),
        flow: Flow::On,
    }
}

} // verus!
