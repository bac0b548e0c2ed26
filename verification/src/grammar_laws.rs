//! What an input looks like that the macro accepts, and that it accepts every input that looks so.

use vstd::prelude::*;

use crate::shape::Kind;
use crate::source::{Delim, SourceView, TokenView, TreeView};
use crate::source;
use crate::syntax::{ArmKind, Expected, JoinMeMaybeArm, ParseError, Region};
use crate::syntax;

verus! {

/// Whether the region holds an expression, to its end.
pub open spec fn is_expr(source: SourceView, region: Region) -> bool {
    source.expr_end(region.start as int) == Some(region.end as int)
}

/// Whether the region holds a pattern, to its end.
pub open spec fn is_pattern(source: SourceView, region: Region) -> bool {
    source.pattern_end(region.start as int) == Some(region.end as int)
}

/// Whether what stands at a position captures something for a body: a pattern with `=` or `in`
/// behind it.
pub open spec fn captures(source: SourceView, at: int) -> bool {
    source.pattern_end(at) matches Some(end) && (source.punct(end, '=') || source.word(end, "in"@))
}

/// Whether the scrutinee and the body stand behind a position, with `=>` between them.
pub open spec fn is_arrow(source: SourceView, at: int, scrutinee: Region, body: Region) -> bool {
    &&& scrutinee.start == at
    &&& is_expr(source, scrutinee)
    &&& source.pair(scrutinee.end as int, '=', '>')
    &&& body.start == source.next(source.next(scrutinee.end as int))
    &&& is_expr(source, body)
}

/// Whether this stands between the two positions.
pub open spec fn is_kind(source: SourceView, kind: ArmKind, at: int, end: int) -> bool {
    match kind {
        ArmKind::FutureOnly { future } => {
            &&& !captures(source, at)
            &&& future.start == at
            &&& is_expr(source, future)
            &&& future.end == end
        },
        ArmKind::FutureAndBody { pattern, future, body } => {
            &&& pattern.start == at
            &&& is_pattern(source, pattern)
            &&& source.punct(pattern.end as int, '=')
            &&& is_arrow(source, source.next(pattern.end as int), future, body)
            &&& body.end == end
        },
        ArmKind::StreamAndBody { pattern, stream, body, finally } => {
            &&& pattern.start == at
            &&& is_pattern(source, pattern)
            &&& source.word(pattern.end as int, "in"@)
            &&& is_arrow(source, source.next(pattern.end as int), stream, body)
            &&& finally is Some <==> source.word(body.end as int, "finally"@)
            &&& match finally {
                Some(finally) => {
                    &&& finally.start == source.next(body.end as int)
                    &&& is_expr(source, finally)
                    &&& finally.end == end
                },
                None => body.end == end,
            }
        },
    }
}

/// Whether the arm stands between the two positions: its label with a colon, if it has one, then
/// `maybe` if it is a "maybe" arm, then what it drives.
pub open spec fn is_arm(source: SourceView, arm: JoinMeMaybeArm, at: int, end: int) -> bool {
    let behind_label = if arm.cancel_label is Some {
        source.next(source.next(at))
    } else {
        at
    };
    let behind_maybe = if arm.is_maybe {
        source.next(behind_label)
    } else {
        behind_label
    };
    &&& arm.cancel_label is Some <==> source.ident(at) && source.punct(source.next(at), ':')
        && !source.pair(source.next(at), ':', ':')
    &&& arm.cancel_label matches Some(label) ==> label == source.seen(at)
    &&& arm.is_maybe <==> source.word(behind_label, "maybe"@)
    &&& is_kind(source, arm.kind, behind_maybe, end)
}

/// Whether these arms stand from a position on to the end, with commas between them, and maybe
/// one behind the last.
pub open spec fn are_arms(source: SourceView, arms: Seq<JoinMeMaybeArm>, at: int) -> bool
    decreases arms.len(),
{
    if arms.len() == 0 {
        at >= source.trees.len()
    } else {
        &&& at < source.trees.len()
        &&& exists|end: int| #[trigger]
            is_arm(source, arms[0], at, end) && (end >= source.trees.len() && arms.len() == 1
                || end < source.trees.len() && source.punct(end, ',') && are_arms(
                source,
                arms.skip(1),
                source.next(end),
            ))
    }
}

/// An arm is found at a position exactly if it stands there.
pub proof fn arm_is_what_stands_there(
    source: SourceView,
    at: int,
    arm: JoinMeMaybeArm,
    end: int,
)
    requires
        source.trees.len() <= usize::MAX,
        at >= 0,
    ensures
        source.parse_arm(at) == Ok::<(JoinMeMaybeArm, int), ParseError>((arm, end))
            <==> is_arm(source, arm, at, end),
{
    reveal_strlit("in");
    reveal_strlit("finally");
    reveal_strlit("maybe");
    lemma_next_grows(source, at);
    let behind_label = if source.label(at) {
        source.next(source.next(at))
    } else {
        at
    };
    lemma_next_grows(source, source.next(at));
    lemma_next_grows(source, behind_label);
    let p = if source.word(behind_label, "maybe"@) {
        source.next(behind_label)
    } else {
        behind_label
    };
    if let Some(e) = source.pattern_end(p) {
        lemma_next_grows(source, e);
        let f = source.next(e);
        if let Some(g) = source.expr_end(f) {
            lemma_next_grows(source, g);
            lemma_next_grows(source, source.next(g));
            let b = source.next(source.next(g));
            if let Some(h) = source.expr_end(b) {
                lemma_next_grows(source, h);
            }
        }
    }
    lemma_kind(source, p, arm.kind, end);
}

proof fn lemma_kind(source: SourceView, p: int, kind: ArmKind, end: int)
    requires
        source.trees.len() <= usize::MAX,
        p >= 0,
    ensures
        source.parse_kind(p) == Ok::<(ArmKind, int), ParseError>((kind, end)) <==> is_kind(
            source,
            kind,
            p,
            end,
        ),
{
    if let Some(e) = source.pattern_end(p) {
        lemma_next_grows(source, e);
        lemma_word_is_no_punct(source, e);
        let f = source.next(e);
        if let Some(g) = source.expr_end(f) {
            lemma_next_grows(source, g);
            lemma_next_grows(source, source.next(g));
            let b = source.next(source.next(g));
            if let Some(h) = source.expr_end(b) {
                lemma_next_grows(source, h);
            }
        }
    }
}

proof fn lemma_word_is_no_punct(source: SourceView, at: int)
    ensures
        !(source.punct(at, '=') && source.word(at, "in"@)),
{
}

proof fn lemma_next_grows(source: SourceView, at: int)
    ensures
        source.next(at) > at,
    decreases source.trees.len() - at,
{
    if 0 <= at < source.trees.len() {
        lemma_next_grows(source, at + 1);
    }
}

/// Arms are found from a position on exactly if they stand there.
pub proof fn arms_are_what_stands_there(source: SourceView, at: int, arms: Seq<JoinMeMaybeArm>)
    requires
        source.trees.len() <= usize::MAX,
        at >= 0,
    ensures
        source.parse_arms(at) == Ok::<Seq<JoinMeMaybeArm>, ParseError>(arms) <==> are_arms(
            source,
            arms,
            at,
        ),
    decreases arms.len(),
{
    let len = source.trees.len();
    if at >= len {
        if arms.len() == 0 {
            assert(arms =~= Seq::empty());
        }
    } else {
        syntax::lemma_arm_advances(source, at);
        if arms.len() > 0 {
            match source.parse_arm(at) {
                Err(_) => {
                    assert forall|end: int| !#[trigger] is_arm(source, arms[0], at, end) by {
                        arm_is_what_stands_there(source, at, arms[0], end);
                    }
                },
                Ok((arm, end)) => {
                    assert forall|other: int|
                        #[trigger] is_arm(source, arms[0], at, other) implies arms[0] == arm && other
                        == end by {
                        arm_is_what_stands_there(source, at, arms[0], other);
                    }
                    arm_is_what_stands_there(source, at, arm, end);
                    if end < len {
                        lemma_next_grows(source, end);
                        let next = source.next(end);
                        let rest = arms.skip(1);
                        arms_are_what_stands_there(source, next, rest);
                        if let Ok(found) = source.parse_arms(next) {
                            assert((seq![arm] + found).skip(1) =~= found);
                            if arms[0] == arm && rest == found {
                                assert(seq![arm] + found =~= arms);
                            }
                        }
                    } else {
                        if arms[0] == arm && arms.len() == 1 {
                            assert(seq![arm] =~= arms);
                        }
                    }
                },
            }
        }
    }
}

proof fn lemma_leftovers(source: SourceView, arms: Seq<JoinMeMaybeArm>, k: int)
    requires
        0 <= k,
    ensures
        source.first_leftover(arms, k) is None <==> forall|j: int|
            k <= j < arms.len() ==> source.arm_leftover((#[trigger] arms[j]).kind) is None,
    decreases arms.len() - k,
{
    if k < arms.len() {
        lemma_leftovers(source, arms, k + 1);
    }
}

proof fn lemma_repeats(source: SourceView, arms: Seq<JoinMeMaybeArm>, k: int)
    requires
        0 <= k,
    ensures
        source.first_repeat(arms, k) >= arms.len() <==> forall|j: int|
            k <= j < arms.len() ==> !#[trigger] source.repeats(arms, j),
    decreases arms.len() - k,
{
    if k < arms.len() {
        lemma_repeats(source, arms, k + 1);
    }
}

/// An input is accepted, as these arms, exactly if these arms stand in it and nothing else does,
/// one of them is waited for, no two have the same label, and no token is left over inside a group.
pub proof fn accepted_is_what_stands_there(source: SourceView, arms: Seq<JoinMeMaybeArm>)
    requires
        source.trees.len() <= usize::MAX,
    ensures
        source.parse() == Ok::<Seq<JoinMeMaybeArm>, ParseError>(arms) <==> {
            &&& are_arms(source, arms, 0)
            &&& exists|k: int| 0 <= k < arms.len() && !(#[trigger] arms[k]).is_maybe
            &&& forall|j: int, k: int|
                0 <= j < k < arms.len() ==> !source.same_label(
                    (#[trigger] arms[j]).cancel_label,
                    (#[trigger] arms[k]).cancel_label,
                )
            &&& forall|k: int|
                0 <= k < arms.len() ==> source.arm_leftover((#[trigger] arms[k]).kind) is None
        },
{
    arms_are_what_stands_there(source, 0, arms);
    lemma_leftovers(source, arms, 0);
    lemma_repeats(source, arms, 0);
    assert((forall|k: int| 0 <= k < arms.len() ==> !#[trigger] source.repeats(arms, k)) <==> (forall|
        j: int,
        k: int,
    |
        0 <= j < k < arms.len() ==> !source.same_label(
            (#[trigger] arms[j]).cancel_label,
            (#[trigger] arms[k]).cancel_label,
        ))) by {
        if forall|k: int| 0 <= k < arms.len() ==> !#[trigger] source.repeats(arms, k) {
            assert forall|j: int, k: int| 0 <= j < k < arms.len() implies !source.same_label(
                (#[trigger] arms[j]).cancel_label,
                (#[trigger] arms[k]).cancel_label,
            ) by {
                assert(!source.repeats(arms, k));
            }
        }
    }
}

/// The form of an arm is what stands in it: whether it is a "maybe" arm, whether it has a label,
/// whether it drives a future or a stream, and which expressions run as its bodies.
pub proof fn shape_is_what_stands_in_the_arm(arm: JoinMeMaybeArm)
    ensures
        arm.spec_shape().is_maybe == arm.is_maybe,
        arm.spec_shape().labeled == (arm.cancel_label is Some),
        match arm.kind {
            ArmKind::FutureOnly { .. } => arm.spec_shape().kind == Kind::Future,
            ArmKind::FutureAndBody { .. } => arm.spec_shape().kind == Kind::FutureBody,
            ArmKind::StreamAndBody { finally, .. } => arm.spec_shape().kind == if finally is Some {
                Kind::StreamFinally
            } else {
                Kind::Stream
            },
        },
{
}

/// Whether the scrutinee and the body that should stand behind a position do not, for this reason:
/// an expression is missing, or the `=>` between them.
pub open spec fn arrow_refused(source: SourceView, at: int, error: ParseError) -> bool {
    match source.expr_end(at) {
        None => error == (ParseError::Expr { at: at as usize }),
        Some(end) => {
            let body = source.next(source.next(end));
            ||| !source.pair(end, '=', '>') && error == (ParseError::Expected {
                what: Expected::FatArrow,
                at: end as usize,
            })
            ||| source.pair(end, '=', '>') && source.expr_end(body) is None && error == (
            ParseError::Expr { at: body as usize })
        },
    }
}

/// Whether the arm that should stand at a position, behind its label and `maybe`, does not, for
/// this reason.
pub open spec fn kind_refused(source: SourceView, at: int, error: ParseError) -> bool {
    if captures(source, at) {
        let end = source.pattern_end(at)->0;
        ||| arrow_refused(source, source.next(end), error)
        ||| !source.punct(end, '=') && exists|stream: Region, body: Region| #[trigger]
            is_arrow(source, source.next(end), stream, body) && source.word(
                body.end as int,
                "finally"@,
            ) && source.expr_end(source.next(body.end as int)) is None && error == (
            ParseError::Expr { at: source.next(body.end as int) as usize })
    } else {
        source.expr_end(at) is None && error == (ParseError::Expr { at: at as usize })
    }
}

/// Where an arm goes on behind its label and `maybe`.
pub open spec fn behind_maybe(source: SourceView, at: int) -> int {
    let behind_label = if source.ident(at) && source.punct(source.next(at), ':') && !source.pair(
        source.next(at),
        ':',
        ':',
    ) {
        source.next(source.next(at))
    } else {
        at
    };
    if source.word(behind_label, "maybe"@) {
        source.next(behind_label)
    } else {
        behind_label
    }
}

/// An arm is refused at a position for exactly this reason.
pub proof fn arm_is_refused_for_its_reason(source: SourceView, at: int, error: ParseError)
    requires
        source.trees.len() <= usize::MAX,
        at >= 0,
    ensures
        source.parse_arm(at) == Err::<(JoinMeMaybeArm, int), ParseError>(error) <==> kind_refused(
            source,
            behind_maybe(source, at),
            error,
        ),
{
    let p = behind_maybe(source, at);
    if let Some(end) = source.pattern_end(p) {
        lemma_word_is_no_punct(source, end);
        let start = source.next(end);
        assert forall|stream: Region, body: Region| #[trigger]
            is_arrow(source, start, stream, body) implies source.parse_arrow(start) == Ok::<
            (Region, Region, int),
            ParseError,
        >((stream, body, body.end as int)) by {
            lemma_arrow(source, start, stream, body);
        }
        if let Ok((stream, body, end)) = source.parse_arrow(start) {
            lemma_next_grows(source, p);
            lemma_next_grows(source, source.pattern_end(p)->0);
            lemma_behind_grows(source, at);
            if let Some(g) = source.expr_end(start) {
                lemma_next_grows(source, g);
                lemma_next_grows(source, source.next(g));
            }
            assert(is_arrow(source, start, stream, body));
        }
    }
}

proof fn lemma_behind_grows(source: SourceView, at: int)
    requires
        at >= 0,
    ensures
        behind_maybe(source, at) >= at,
{
    lemma_next_grows(source, at);
    lemma_next_grows(source, source.next(at));
    lemma_next_grows(source, source.next(source.next(at)));
}

proof fn lemma_arrow(source: SourceView, start: int, scrutinee: Region, body: Region)
    requires
        source.trees.len() <= usize::MAX,
        is_arrow(source, start, scrutinee, body),
    ensures
        source.parse_arrow(start) == Ok::<(Region, Region, int), ParseError>(
            (scrutinee, body, body.end as int),
        ),
{
}

/// Whether the arms that should stand from a position on do not, for this reason: the first arm
/// is refused, something else than a comma stands behind it, or the arms after it are refused.
pub open spec fn arms_refused(source: SourceView, at: int, error: ParseError, n: nat) -> bool
    decreases n,
{
    &&& at < source.trees.len()
    &&& {
        ||| kind_refused(source, behind_maybe(source, at), error)
        ||| exists|arm: JoinMeMaybeArm, end: int| #[trigger]
            is_arm(source, arm, at, end) && end < source.trees.len() && {
                ||| source.pair(end, '=', '>') && error == (ParseError::MissingCapture {
                    at: end as usize,
                })
                ||| !source.pair(end, '=', '>') && !source.punct(end, ',') && error == (
                ParseError::Expected { what: Expected::Comma, at: end as usize })
                ||| source.punct(end, ',') && n > 0 && arms_refused(
                    source,
                    source.next(end),
                    error,
                    (n - 1) as nat,
                )
            }
    }
}

proof fn lemma_comma_is_no_arrow(source: SourceView, at: int)
    ensures
        !(source.pair(at, '=', '>') && source.punct(at, ',')),
{
}

/// An input is refused for the first thing that is wrong with its arms, and for exactly that.
pub proof fn arms_are_refused_for_their_reason(
    source: SourceView,
    at: int,
    error: ParseError,
    n: nat,
)
    requires
        source.trees.len() <= usize::MAX,
        at >= 0,
        n + at >= source.trees.len(),
    ensures
        source.parse_arms(at) == Err::<Seq<JoinMeMaybeArm>, ParseError>(error) <==> arms_refused(
            source,
            at,
            error,
            n,
        ),
    decreases n,
{
    if at < source.trees.len() {
        syntax::lemma_arm_advances(source, at);
        arm_is_refused_for_its_reason(source, at, error);
        match source.parse_arm(at) {
            Err(_) => {
                assert forall|arm: JoinMeMaybeArm, end: int| !#[trigger]
                    is_arm(source, arm, at, end) by {
                    arm_is_what_stands_there(source, at, arm, end);
                }
            },
            Ok((arm, end)) => {
                arm_is_what_stands_there(source, at, arm, end);
                assert forall|other: JoinMeMaybeArm, stop: int| #[trigger]
                    is_arm(source, other, at, stop) implies other == arm && stop == end by {
                    arm_is_what_stands_there(source, at, other, stop);
                }
                if end < source.trees.len() {
                    lemma_comma_is_no_arrow(source, end);
                    lemma_next_grows(source, end);
                    if n > 0 {
                        arms_are_refused_for_their_reason(
                            source,
                            source.next(end),
                            error,
                            (n - 1) as nat,
                        );
                    }
                }
            },
        }
    }
}

/// Arms that stand in the input are refused as a whole if all of them are "maybe" arms, else if a
/// label comes twice, else if a token is left over inside a group: for the first of these reasons.
pub proof fn arms_are_refused_as_a_whole(source: SourceView, arms: Seq<JoinMeMaybeArm>)
    requires
        source.trees.len() <= usize::MAX,
        are_arms(source, arms, 0),
    ensures
        ({
            let only_maybe = forall|k: int| 0 <= k < arms.len() ==> (#[trigger] arms[k]).is_maybe;
            let repeated = |k: int|
                0 <= k < arms.len() && exists|j: int|
                    0 <= j < k && source.same_label(
                        (#[trigger] arms[j]).cancel_label,
                        arms[k].cancel_label,
                    );
            let result = source.parse();
            &&& result == Err::<Seq<JoinMeMaybeArm>, ParseError>(ParseError::OnlyMaybe)
                <==> only_maybe
            &&& (result is Err && result->Err_0 is RepeatedLabel) <==> !only_maybe && exists|k: int|
                #[trigger] repeated(k)
            &&& forall|k: int|
                !only_maybe && #[trigger] repeated(k) && (forall|j: int|
                    0 <= j < k ==> !#[trigger] repeated(j)) ==> result == Err::<
                    Seq<JoinMeMaybeArm>,
                    ParseError,
                >(ParseError::RepeatedLabel { at: arms[k].cancel_label->0 })
        }),
{
    arms_are_what_stands_there(source, 0, arms);
    lemma_repeats(source, arms, 0);
    let repeated = |k: int|
        0 <= k < arms.len() && exists|j: int|
            0 <= j < k && source.same_label(
                (#[trigger] arms[j]).cancel_label,
                arms[k].cancel_label,
            );
    assert forall|k: int| 0 <= k < arms.len() implies #[trigger] repeated(k) == source.repeats(
        arms,
        k,
    ) by {}
    lemma_first_repeat(source, arms, 0);
    let first = source.first_repeat(arms, 0);
    if first < arms.len() {
        assert(repeated(first));
    }
    assert forall|k: int|
        0 <= k < arms.len() && #[trigger] repeated(k) && (forall|j: int|
            0 <= j < k ==> !#[trigger] repeated(j)) implies first == k by {
        assert(source.repeats(arms, k));
        if first < k {
            assert(!repeated(first));
        }
    }
    lemma_leftover_kinds(source, arms, 0);
}

proof fn lemma_first_repeat(source: SourceView, arms: Seq<JoinMeMaybeArm>, k: int)
    requires
        0 <= k <= arms.len(),
    ensures
        k <= source.first_repeat(arms, k) <= arms.len(),
        source.first_repeat(arms, k) < arms.len() ==> source.repeats(
            arms,
            source.first_repeat(arms, k),
        ),
        forall|j: int|
            k <= j < source.first_repeat(arms, k) ==> !#[trigger] source.repeats(arms, j),
    decreases arms.len() - k,
{
    if k < arms.len() && !source.repeats(arms, k) {
        lemma_first_repeat(source, arms, k + 1);
    }
}

proof fn lemma_leftover_kinds(source: SourceView, arms: Seq<JoinMeMaybeArm>, k: int)
    requires
        0 <= k,
    ensures
        source.first_leftover(arms, k) matches Some(error) ==> error is UnexpectedInExpr
            || error is UnexpectedInPattern,
    decreases arms.len() - k,
{
    if k < arms.len() {
        lemma_leftover_kinds(source, arms, k + 1);
    }
}

/// The tokens of a list of token trees that can be seen: each word, punctuation character, literal
/// and delimited group, and those inside a group without visible delimiters in its place.
pub open spec fn tokens(trees: Seq<TreeView>) -> Seq<TokenView>
    decreases trees,
{
    if trees.len() == 0 {
        seq![]
    } else {
        let rest = tokens(trees.drop_first());
        match trees[0] {
            TreeView::Ident(text) => seq![TokenView::Ident(text)] + rest,
            TreeView::Punct(ch, joint) => seq![TokenView::Punct(ch, joint)] + rest,
            TreeView::Literal(_) => seq![TokenView::Literal] + rest,
            TreeView::Group(Delim::Hidden, inner) => tokens(inner) + rest,
            TreeView::Group(_, _) => seq![TokenView::Group] + rest,
        }
    }
}

/// The entries without the marks of groups that have no visible delimiters.
pub open spec fn without_marks(entries: Seq<TokenView>) -> Seq<TokenView>
    decreases entries.len(),
{
    if entries.len() == 0 {
        seq![]
    } else if entries.last() is Open {
        without_marks(entries.drop_last())
    } else {
        without_marks(entries.drop_last()).push(entries.last())
    }
}

proof fn lemma_without_marks(a: Seq<TokenView>, b: Seq<TokenView>)
    ensures
        without_marks(a + b) == without_marks(a) + without_marks(b),
    decreases b.len(),
{
    if b.len() == 0 {
        assert(a + b =~= a);
        assert(without_marks(a) + without_marks(b) =~= without_marks(a));
    } else {
        lemma_without_marks(a, b.drop_last());
        assert((a + b).drop_last() =~= a + b.drop_last());
        assert((a + b).last() == b.last());
        assert(without_marks(a + b) =~= without_marks(a) + without_marks(b));
    }
}

/// The entries that the grammar looks at are the tokens of the input that can be seen, each once
/// and in order, and marks of groups without visible delimiters.
pub proof fn entries_are_the_tokens(trees: Seq<TreeView>)
    ensures
        without_marks(source::entries(trees)) == tokens(trees),
    decreases trees,
{
    if trees.len() > 0 {
        let rest = trees.drop_first();
        assert(decreases_to!(trees => rest));
        entries_are_the_tokens(rest);
        let first = match trees[0] {
            TreeView::Ident(text) => seq![TokenView::Ident(text)],
            TreeView::Punct(ch, joint) => seq![TokenView::Punct(ch, joint)],
            TreeView::Literal(_) => seq![TokenView::Literal],
            TreeView::Group(delim, inner) => if delim == Delim::Hidden {
                seq![TokenView::Open(source::entries(inner).len())] + source::entries(inner)
            } else {
                seq![TokenView::Group]
            },
        };
        assert(source::entries(trees) == first + source::entries(rest));
        lemma_without_marks(first, source::entries(rest));
        if let TreeView::Group(Delim::Hidden, inner) = trees[0] {
            assert(decreases_to!(trees => trees[0]));
            assert(decreases_to!(trees[0] => inner));
            entries_are_the_tokens(inner);
            let mark = seq![TokenView::Open(source::entries(inner).len())];
            lemma_without_marks(mark, source::entries(inner));
            assert(mark.drop_last() =~= Seq::empty());
            reveal_with_fuel(without_marks, 2);
            assert(without_marks(mark) =~= Seq::empty());
            assert(without_marks(first) =~= tokens(inner));
        } else {
            assert(first.drop_last() =~= Seq::empty());
            reveal_with_fuel(without_marks, 2);
            assert(without_marks(first) =~= first);
        }
    }
}

} // verus!
