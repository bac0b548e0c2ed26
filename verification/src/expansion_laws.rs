//! What holds of every expansion.

use vstd::prelude::*;

use crate::expansion::{self, Name, Outline, Part, Piece};
use crate::syntax::{ArmKind, JoinMeMaybeArm, Region};

verus! {

/// The regions of the input that the pieces hold, in order.
pub open spec fn inputs(pieces: Seq<Piece>) -> Seq<Region>
    decreases pieces.len(),
{
    if pieces.len() == 0 {
        seq![]
    } else {
        match pieces.last() {
            Piece::Input(region) => inputs(pieces.drop_last()).push(region),
            _ => inputs(pieces.drop_last()),
        }
    }
}

/// The pattern, the body and the `finally` expression of an arm, as far as it has them.
pub open spec fn bodies_of(kind: ArmKind) -> Seq<Region> {
    match kind {
        ArmKind::FutureOnly { .. } => seq![],
        ArmKind::FutureAndBody { pattern, body, .. } => seq![pattern, body],
        ArmKind::StreamAndBody { pattern, body, finally, .. } => match finally {
            Some(finally) => seq![pattern, body, finally],
            None => seq![pattern, body],
        },
    }
}

/// The patterns, bodies and `finally` expressions of the first `n` arms.
pub open spec fn all_bodies(arms: Seq<JoinMeMaybeArm>, n: nat) -> Seq<Region>
    decreases n,
{
    if n == 0 {
        seq![]
    } else {
        all_bodies(arms, (n - 1) as nat) + bodies_of(arms[n - 1].kind)
    }
}

/// The futures and the streams of the arms.
pub open spec fn scrutinees(arms: Seq<JoinMeMaybeArm>) -> Seq<Region> {
    arms.map_values(|arm: JoinMeMaybeArm| expansion::scrutinee(arm.kind))
}

/// The regions of the input that one part of the expansion holds for one arm.
pub open spec fn part_inputs(which: Part, arm: JoinMeMaybeArm) -> Seq<Region> {
    match which {
        Part::Scrutinee => seq![expansion::scrutinee(arm.kind)],
        Part::BodyArm => bodies_of(arm.kind),
        _ => seq![],
    }
}

/// Whether the pieces hold nothing of the input but single token trees.
pub open spec fn generated(pieces: Seq<Piece>) -> bool {
    forall|k: int| 0 <= k < pieces.len() ==> !(#[trigger] pieces[k] is Input)
}

proof fn lemma_inputs_add(a: Seq<Piece>, b: Seq<Piece>)
    ensures
        inputs(a + b) == inputs(a) + inputs(b),
    decreases b.len(),
{
    if b.len() == 0 {
        assert(a + b =~= a);
    } else {
        assert((a + b).drop_last() =~= a + b.drop_last());
        lemma_inputs_add(a, b.drop_last());
        assert(inputs(a + b) =~= inputs(a) + inputs(b));
    }
}

proof fn lemma_generated(pieces: Seq<Piece>)
    requires
        generated(pieces),
    ensures
        inputs(pieces) == Seq::<Region>::empty(),
    decreases pieces.len(),
{
    if pieces.len() > 0 {
        assert(generated(pieces.drop_last())) by {
            assert forall|k: int| 0 <= k < pieces.drop_last().len() implies !(
            #[trigger] pieces.drop_last()[k] is Input) by {
                assert(pieces.drop_last()[k] == pieces[k]);
            }
        }
        lemma_generated(pieces.drop_last());
    }
}

proof fn lemma_poll_is_generated(arm: JoinMeMaybeArm, i: usize, outline: Outline)
    ensures
        generated(expansion::part(Part::Poll, arm, i, outline)),
{
    let shape = arm.spec_shape();
    assert(generated(expansion::poll_is_ready(shape, i)));
    assert(generated(expansion::bump_count(shape.spec_bump(), i)));
    assert(generated(expansion::check_definitely_finished(outline.total)));
    assert(generated(expansion::cancelled(i)));
    assert(generated(expansion::poll_and_count(shape, i, outline.total)));
    assert(generated(expansion::leave_for_body(shape, i)));
}

proof fn lemma_try_body_is_generated(arm: JoinMeMaybeArm, i: usize, outline: Outline)
    ensures
        generated(expansion::part(Part::TryBody, arm, i, outline)),
{
    let shape = arm.spec_shape();
    assert(generated(expansion::start_body(i)));
    assert(generated(expansion::set_body_flags(shape, i)));
    assert(generated(expansion::is_live(shape, i)));
    assert(generated(expansion::start_finally(shape, i)));
}

proof fn lemma_scrutinee_inputs(arm: JoinMeMaybeArm, i: usize)
    ensures
        inputs(expansion::pinned(arm, i) + expansion::variables(arm.spec_shape().kind, i)) == seq![
            expansion::scrutinee(arm.kind),
        ],
{
    let pieces = expansion::pinned(arm, i);
    let region = expansion::scrutinee(arm.kind);
    let before = pieces.take(3);
    let rest = pieces.skip(4);
    assert(pieces =~= before + seq![Piece::Input(region)] + rest);
    lemma_generated(before);
    lemma_generated(rest);
    lemma_one_input(region);
    lemma_inputs_add(before + seq![Piece::Input(region)], rest);
    lemma_inputs_add(before, seq![Piece::Input(region)]);
    let variables = expansion::variables(arm.spec_shape().kind, i);
    lemma_generated(variables);
    lemma_inputs_add(pieces, variables);
    assert(inputs(pieces + variables) =~= seq![region]);
}

proof fn lemma_one_input(region: Region)
    ensures
        inputs(seq![Piece::Input(region)]) == seq![region],
{
    reveal_with_fuel(inputs, 2);
    assert(inputs(seq![Piece::Input(region)]) =~= seq![region]);
}

proof fn lemma_value_of_body_inputs(body: Region, i: usize)
    ensures
        inputs(expansion::value_of_body(body, i)) == seq![body],
{
    let pieces = expansion::value_of_body(body, i);
    let before = pieces.take(3);
    let rest = pieces.skip(4);
    assert(pieces =~= before + seq![Piece::Input(body)] + rest);
    lemma_generated(before);
    lemma_generated(rest);
    lemma_one_input(body);
    lemma_inputs_add(before + seq![Piece::Input(body)], rest);
    lemma_inputs_add(before, seq![Piece::Input(body)]);
    assert(inputs(pieces) =~= seq![body]);
}

proof fn lemma_body_inputs(kind: ArmKind, i: usize)
    ensures
        inputs(expansion::body_part(kind, i)) == bodies_of(kind),
{
    match kind {
        ArmKind::FutureOnly { .. } => {},
        ArmKind::FutureAndBody { pattern, body, .. } => {
            let pieces = expansion::body_part(kind, i);
            let value = expansion::value_of_body(body, i);
            let before = pieces.take(4);
            let between = seq![pieces[5]];
            assert(pieces =~= before + seq![Piece::Input(pattern)] + between + value);
            lemma_generated(before);
            lemma_generated(between);
            lemma_one_input(pattern);
            lemma_value_of_body_inputs(body, i);
            lemma_inputs_add(before + seq![Piece::Input(pattern)] + between, value);
            lemma_inputs_add(before + seq![Piece::Input(pattern)], between);
            lemma_inputs_add(before, seq![Piece::Input(pattern)]);
            assert(inputs(pieces) =~= seq![pattern, body]);
        },
        ArmKind::StreamAndBody { pattern, body, finally, .. } => {
            let pieces = expansion::body_part(kind, i);
            let before = pieces.take(4);
            let between = seq![pieces[5]];
            let after = seq![pieces[7]];
            let rest = pieces.skip(8);
            assert(pieces =~= before + seq![Piece::Input(pattern)] + between + seq![
                Piece::Input(body),
            ] + after + rest);
            lemma_generated(before);
            lemma_generated(between);
            lemma_generated(after);
            lemma_one_input(pattern);
            lemma_one_input(body);
            lemma_inputs_add(before, seq![Piece::Input(pattern)]);
            lemma_inputs_add(before + seq![Piece::Input(pattern)], between);
            lemma_inputs_add(
                before + seq![Piece::Input(pattern)] + between,
                seq![Piece::Input(body)],
            );
            lemma_inputs_add(
                before + seq![Piece::Input(pattern)] + between + seq![Piece::Input(body)],
                after,
            );
            lemma_inputs_add(
                before + seq![Piece::Input(pattern)] + between + seq![Piece::Input(body)] + after,
                rest,
            );
            match finally {
                Some(finally) => {
                    let start = rest.take(3);
                    let value = expansion::value_of_body(finally, i);
                    assert(rest =~= start + value);
                    lemma_generated(start);
                    lemma_value_of_body_inputs(finally, i);
                    lemma_inputs_add(start, value);
                    assert(inputs(pieces) =~= seq![pattern, body, finally]);
                },
                None => {
                    assert(rest =~= seq![]);
                    assert(inputs(pieces) =~= seq![pattern, body]);
                },
            }
        },
    }
}

proof fn lemma_part_inputs(which: Part, arm: JoinMeMaybeArm, i: usize, outline: Outline)
    ensures
        inputs(expansion::part(which, arm, i, outline)) == part_inputs(which, arm),
{
    match which {
        Part::Scrutinee => lemma_scrutinee_inputs(arm, i),
        Part::BodyArm => lemma_body_inputs(arm.kind, i),
        Part::Poll => {
            lemma_poll_is_generated(arm, i, outline);
            lemma_generated(expansion::part(which, arm, i, outline));
        },
        Part::TryBody => {
            lemma_try_body_is_generated(arm, i, outline);
            lemma_generated(expansion::part(which, arm, i, outline));
        },
        _ => lemma_generated(expansion::part(which, arm, i, outline)),
    }
}

proof fn lemma_parts_inputs(which: Part, arms: Seq<JoinMeMaybeArm>, n: nat, outline: Outline)
    requires
        n <= arms.len(),
    ensures
        inputs(expansion::parts(which, arms, n, outline)) == (match which {
            Part::Scrutinee => scrutinees(arms).take(n as int),
            Part::BodyArm => all_bodies(arms, n),
            _ => seq![],
        }),
    decreases n,
{
    if n > 0 {
        let m = (n - 1) as nat;
        lemma_parts_inputs(which, arms, m, outline);
        lemma_part_inputs(which, arms[n - 1], (n - 1) as usize, outline);
        lemma_inputs_add(
            expansion::parts(which, arms, m, outline),
            expansion::part(which, arms[n - 1], (n - 1) as usize, outline),
        );
        match which {
            Part::Scrutinee => {
                assert(scrutinees(arms).take(n as int) =~= scrutinees(arms).take(m as int) + seq![
                    expansion::scrutinee(arms[n - 1].kind),
                ]);
            },
            Part::BodyArm => {},
            _ => {
                assert(Seq::<Region>::empty() + Seq::<Region>::empty() =~= Seq::<Region>::empty());
            },
        }
    } else {
        assert(scrutinees(arms).take(0) =~= seq![]);
    }
}

proof fn lemma_add_nothing(a: Seq<Piece>, b: Seq<Piece>)
    requires
        inputs(b) == Seq::<Region>::empty(),
    ensures
        inputs(a + b) == inputs(a),
{
    lemma_inputs_add(a, b);
    assert(inputs(a) + inputs(b) =~= inputs(a));
}

proof fn lemma_drop_cancelled_inputs(arms: Seq<JoinMeMaybeArm>, outline: Outline)
    ensures
        inputs(expansion::drop_cancelled(arms, outline)) == Seq::<Region>::empty(),
{
    let maybe = expansion::all_parts(Part::DropMaybe, arms, outline);
    let labeled = expansion::all_parts(Part::DropLabeled, arms, outline);
    let head = seq![Piece::Code("if")] + expansion::definitely_finished(outline.total) + seq![
        Piece::Code("{"),
    ];
    lemma_generated(head);
    lemma_parts_inputs(Part::DropMaybe, arms, arms.len(), outline);
    lemma_parts_inputs(Part::DropLabeled, arms, arms.len(), outline);
    lemma_add_nothing(head, maybe);
    lemma_generated(seq![Piece::Code("}")]);
    lemma_add_nothing(head + maybe, seq![Piece::Code("}")]);
    lemma_add_nothing(head + maybe + seq![Piece::Code("}")], labeled);
}

proof fn lemma_run_bodies_inputs(arms: Seq<JoinMeMaybeArm>, outline: Outline)
    ensures
        inputs(expansion::run_bodies_loop(arms, outline)) == Seq::<Region>::empty(),
{
    let all = expansion::run_bodies_loop(arms, outline);
    let bodies = expansion::all_parts(Part::TryBody, arms, outline);
    let head = all.take(all.len() - bodies.len() - 3);
    let end = seq![
        Piece::Code("if"),
        Piece::Id(Name::RunBodyFuture),
        Piece::Code(".is_none() { break; } }"),
    ];
    assert(all =~= head + bodies + end);
    assert(generated(head)) by {
        assert(generated(expansion::body_is_cancelled(outline.total)));
        assert(generated(expansion::drop_body()));
    }
    lemma_generated(head);
    lemma_generated(end);
    lemma_parts_inputs(Part::TryBody, arms, arms.len(), outline);
    lemma_add_nothing(head, bodies);
    lemma_add_nothing(head + bodies, end);
}

proof fn lemma_run_and_sweep_inputs(arms: Seq<JoinMeMaybeArm>, outline: Outline)
    ensures
        inputs(expansion::run_and_sweep(arms, outline)) == Seq::<Region>::empty(),
{
    let head = seq![Piece::Code("loop {")];
    let bodies = expansion::run_bodies_loop(arms, outline);
    let dropped = expansion::drop_cancelled(arms, outline);
    let end = seq![
        Piece::Code("if !("),
        Piece::Id(Name::RunBodyFuture),
        Piece::Code(".is_some() &&"),
    ] + expansion::body_is_cancelled(outline.total) + seq![Piece::Code(") { break; } }")];
    assert(expansion::run_and_sweep(arms, outline) =~= head + bodies + dropped + end);
    assert(generated(end)) by {
        assert(generated(expansion::body_is_cancelled(outline.total)));
    }
    lemma_generated(head);
    lemma_generated(end);
    lemma_run_bodies_inputs(arms, outline);
    lemma_drop_cancelled_inputs(arms, outline);
    lemma_add_nothing(head, bodies);
    lemma_add_nothing(head + bodies, dropped);
    lemma_add_nothing(head + bodies + dropped, end);
}

proof fn lemma_run_body_items_inputs(arms: Seq<JoinMeMaybeArm>, outline: Outline)
    ensures
        inputs(expansion::run_body_items(arms, outline)) == all_bodies(arms, arms.len()),
{
    let all = expansion::run_body_items(arms, outline);
    let params = expansion::all_parts(Part::TypeParam, arms, outline);
    let variants = expansion::all_parts(Part::Variant, arms, outline);
    let cancellers = expansion::all_parts(Part::CancellerMut, arms, outline);
    let bodies = expansion::all_parts(Part::BodyArm, arms, outline);
    let a = all.take(3);
    let b = seq![Piece::Code("> {")];
    let c = seq![Piece::Code("} }")];
    let before = a + params + b + variants + c + cancellers;
    let d = all.subrange(before.len() as int, before.len() as int + 9);
    let e = all.skip(before.len() as int + 9 + bodies.len());
    assert(all =~= before + d + bodies + e);
    lemma_parts_inputs(Part::TypeParam, arms, arms.len(), outline);
    lemma_parts_inputs(Part::Variant, arms, arms.len(), outline);
    lemma_parts_inputs(Part::CancellerMut, arms, arms.len(), outline);
    lemma_parts_inputs(Part::BodyArm, arms, arms.len(), outline);
    lemma_generated(a);
    lemma_generated(b);
    lemma_generated(c);
    lemma_generated(d);
    lemma_generated(e);
    lemma_add_nothing(a, params);
    lemma_add_nothing(a + params, b);
    lemma_add_nothing(a + params + b, variants);
    lemma_add_nothing(a + params + b + variants, c);
    lemma_add_nothing(a + params + b + variants + c, cancellers);
    lemma_add_nothing(before, d);
    lemma_inputs_add(before + d, bodies);
    lemma_add_nothing(before + d + bodies, e);
    assert(inputs(all) =~= all_bodies(arms, arms.len()));
}

proof fn lemma_no_bodies(arms: Seq<JoinMeMaybeArm>, n: nat)
    requires
        !expansion::has_bodies(arms),
        n <= arms.len(),
    ensures
        all_bodies(arms, n) == Seq::<Region>::empty(),
    decreases n,
{
    if n > 0 {
        lemma_no_bodies(arms, (n - 1) as nat);
        assert(!arms[n - 1].spec_shape().spec_has_body());
        assert(all_bodies(arms, n) =~= seq![]);
    }
}

proof fn lemma_beginning_inputs(arms: Seq<JoinMeMaybeArm>)
    ensures
        inputs(expansion::beginning(arms, expansion::outline(arms))) == scrutinees(arms)
            + all_bodies(arms, arms.len()),
{
    let outline = expansion::outline(arms);
    let a = expansion::beginning(arms, outline).take(3);
    let cancellers = expansion::all_parts(Part::Canceller, arms, outline);
    let futures = expansion::all_parts(Part::Scrutinee, arms, outline);
    let items = if outline.bodies {
        expansion::run_body_items(arms, outline)
    } else {
        seq![]
    };
    assert(expansion::beginning(arms, outline) =~= a + cancellers + futures + items);
    lemma_generated(a);
    lemma_parts_inputs(Part::Canceller, arms, arms.len(), outline);
    lemma_parts_inputs(Part::Scrutinee, arms, arms.len(), outline);
    if outline.bodies {
        lemma_run_body_items_inputs(arms, outline);
    } else {
        lemma_no_bodies(arms, arms.len());
    }
    lemma_add_nothing(a, cancellers);
    lemma_inputs_add(a + cancellers, futures);
    lemma_inputs_add(a + cancellers + futures, items);
    assert(scrutinees(arms).take(arms.len() as int) =~= scrutinees(arms));
    assert(inputs(a + cancellers + futures) =~= scrutinees(arms));
}

proof fn lemma_one_pass_inputs(arms: Seq<JoinMeMaybeArm>, outline: Outline)
    ensures
        inputs(expansion::one_pass(arms, outline)) == Seq::<Region>::empty(),
{
    let a = seq![Piece::Code("loop {")] + (if outline.bodies {
        expansion::take_up_polling(arms.len() as usize)
    } else {
        seq![]
    }) + seq![Piece::Code("if !")] + expansion::definitely_finished(outline.total) + seq![
        Piece::Code("{ loop {"),
    ];
    let polls = expansion::all_parts(Part::Poll, arms, outline);
    let b = seq![Piece::Code("break; } }")];
    let dropped = expansion::drop_cancelled(arms, outline);
    let bodies = if outline.bodies {
        expansion::run_and_sweep(arms, outline)
    } else {
        seq![
            Piece::Code("let mut"),
            Piece::Id(Name::ItemConsumedFromLiveStream),
            Piece::Code("= false;"),
        ]
    };
    assert(generated(a)) by {
        assert(generated(expansion::take_up_polling(arms.len() as usize)));
        assert(generated(expansion::definitely_finished(outline.total)));
    }
    lemma_generated(a);
    lemma_generated(b);
    lemma_parts_inputs(Part::Poll, arms, arms.len(), outline);
    lemma_drop_cancelled_inputs(arms, outline);
    if outline.bodies {
        lemma_run_and_sweep_inputs(arms, outline);
    } else {
        lemma_generated(bodies);
    }
    lemma_add_nothing(a, polls);
    lemma_add_nothing(a + polls, b);
    lemma_add_nothing(a + polls + b, dropped);
    lemma_add_nothing(a + polls + b + dropped, bodies);
}

proof fn lemma_end_or_wait_inputs(arms: Seq<JoinMeMaybeArm>, outline: Outline)
    ensures
        inputs(expansion::end_or_wait(arms, outline)) == Seq::<Region>::empty(),
{
    let all = expansion::end_or_wait(arms, outline);
    let values = expansion::all_parts(Part::Return, arms, outline);
    let end = expansion::wait_part(arms.len() as usize, outline.bodies);
    let a = all.take(all.len() - end.len() - values.len());
    assert(all =~= a + values + end);
    assert(generated(a)) by {
        assert(generated(expansion::definitely_finished(outline.total)));
        assert(generated(expansion::drop_body()));
    }
    lemma_generated(a);
    lemma_generated(end);
    lemma_parts_inputs(Part::Return, arms, arms.len(), outline);
    lemma_add_nothing(a, values);
    lemma_add_nothing(a + values, end);
}

/// What the user wrote stands in the expansion once: each future or stream, in the order of the
/// arms, then each pattern, body and `finally` expression, in that order too.
pub proof fn user_code_stands_once(arms: Seq<JoinMeMaybeArm>)
    ensures
        inputs(expansion::expansion(arms)) == scrutinees(arms) + all_bodies(arms, arms.len()),
{
    let outline = expansion::outline(arms);
    let beginning = expansion::beginning(arms, outline);
    let pass = expansion::one_pass(arms, outline);
    lemma_beginning_inputs(arms);
    lemma_one_pass_inputs(arms, outline);
    lemma_end_or_wait_inputs(arms, outline);
    lemma_add_nothing(beginning, pass);
    lemma_add_nothing(beginning + pass, expansion::end_or_wait(arms, outline));
}

proof fn lemma_canceller_binds(arms: Seq<JoinMeMaybeArm>, n: nat, outline: Outline, i: int)
    requires
        0 <= i < n <= arms.len(),
        arms[i].cancel_label is Some,
    ensures
        expansion::parts(Part::Canceller, arms, n, outline).contains(expansion::label(arms[i])),
    decreases n,
{
    let before = expansion::parts(Part::Canceller, arms, (n - 1) as nat, outline);
    let part = expansion::canceller_part(arms[n - 1], (n - 1) as usize);
    if i < n - 1 {
        lemma_canceller_binds(arms, (n - 1) as nat, outline, i);
        let k = before.index_of(expansion::label(arms[i]));
        assert((before + part)[k] == expansion::label(arms[i]));
    } else {
        let k: int = if arms[i].is_maybe {
            3
        } else {
            5
        };
        assert(part[k] == expansion::label(arms[i]));
        assert((before + part)[before.len() + k] == part[k]);
    }
}

/// A label is bound before any future or stream of the user, so that all of them have it in scope.
pub proof fn labels_are_bound_first(arms: Seq<JoinMeMaybeArm>, i: int)
    requires
        0 <= i < arms.len(),
        arms[i].cancel_label is Some,
    ensures
        exists|k: int|
            {
                &&& 0 <= k < expansion::expansion(arms).len()
                &&& inputs(#[trigger] expansion::expansion(arms).take(k)).len() == 0
                &&& expansion::expansion(arms).take(k).contains(expansion::label(arms[i]))
            },
{
    let outline = expansion::outline(arms);
    let all = expansion::expansion(arms);
    let head = all.take(3);
    let cancellers = expansion::all_parts(Part::Canceller, arms, outline);
    let k = 3 + cancellers.len();
    assert(all.take(k as int) =~= head + cancellers);
    lemma_generated(head);
    lemma_parts_inputs(Part::Canceller, arms, arms.len(), outline);
    lemma_add_nothing(head, cancellers);
    lemma_canceller_binds(arms, arms.len(), outline, i);
    let at = cancellers.index_of(expansion::label(arms[i]));
    assert((head + cancellers)[3 + at] == expansion::label(arms[i]));
    assert(inputs(all.take(k as int)).len() == 0);
}

} // verus!
