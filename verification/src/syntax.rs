//! The grammar of the macro.
//!
//! ```text
//! join   := arm { "," arm } [ "," ]
//! arm    := [ label ":" ] [ "maybe" ] kind
//! kind   := future
//!         | pattern "=" future "=>" body
//!         | pattern "in" stream "=>" body [ "finally" body ]
//! ```

use vstd::prelude::*;

use crate::shape::{ArmShape, Kind};
use crate::source::{self, Delim, Source, SourceView, Token, TokenView, TreeView};

verus! {

/// A range of token trees of the input.
#[derive(Clone, Copy, Debug, PartialEq, Eq, Structural)]
pub struct Region {
    pub start: usize,
    pub end: usize,
}

/// What stands in an arm.
#[derive(Clone, Copy, Debug, PartialEq, Eq, Structural)]
pub enum ArmKind {
    FutureOnly { future: Region },
    FutureAndBody { pattern: Region, future: Region, body: Region },
    StreamAndBody { pattern: Region, stream: Region, body: Region, finally: Option<Region> },
}

/// One arm of a join.
#[derive(Clone, Copy, Debug, PartialEq, Eq, Structural)]
pub struct JoinMeMaybeArm {
    /// Where the label stands, if there is one.
    pub cancel_label: Option<usize>,
    /// Whether the join ends without waiting for this arm.
    pub is_maybe: bool,
    pub kind: ArmKind,
}

/// The arms of a join.
#[derive(Debug)]
pub struct JoinMeMaybe {
    pub arms: Vec<JoinMeMaybeArm>,
}

/// A token that the grammar asks for.
#[derive(Clone, Copy, Debug, PartialEq, Eq, Structural)]
pub enum Expected {
    Comma,
    FatArrow,
}

/// Why an input is not a join.
#[derive(Clone, Copy, Debug, PartialEq, Eq, Structural)]
pub enum ParseError {
    /// No expression starts here.
    Expr { at: usize },
    /// This token does not stand here.
    Expected { what: Expected, at: usize },
    /// A body stands here, but nothing captures the output that it is for.
    MissingCapture { at: usize },
    /// There is nothing to wait for.
    OnlyMaybe,
    /// The label that stands here is that of an arm before.
    RepeatedLabel { at: usize },
    /// A token is left over inside a group of the expression that starts here.
    UnexpectedInExpr { at: usize },
    /// A token is left over inside a group of the pattern that starts here.
    UnexpectedInPattern { at: usize },
}

impl SourceView {
    /// Whether a label starts at a position: an identifier and a colon, and not a path.
    pub open spec fn label(self, at: int) -> bool {
        &&& self.ident(at)
        &&& self.punct(self.next(at), ':')
        &&& !self.pair(self.next(at), ':', ':')
    }

    /// The expression at a position and where it ends.
    pub open spec fn parse_expr(self, at: int) -> Result<(Region, int), ParseError> {
        match self.expr_end(at) {
            Some(end) => Ok((Region { start: at as usize, end: end as usize }, end)),
            None => Err(ParseError::Expr { at: at as usize }),
        }
    }

    /// The scrutinee that starts at `start`, the arrow, and the body that follows it; and where the
    /// body ends.
    pub open spec fn parse_arrow(self, start: int) -> Result<(Region, Region, int), ParseError> {
        match self.parse_expr(start) {
            Err(error) => Err(error),
            Ok((scrutinee, end)) => if !self.pair(end, '=', '>') {
                Err(ParseError::Expected { what: Expected::FatArrow, at: end as usize })
            } else {
                match self.parse_expr(self.next(self.next(end))) {
                    Err(error) => Err(error),
                    Ok((body, end)) => Ok((scrutinee, body, end)),
                }
            },
        }
    }

    /// The `finally` expression at a position, if there is one, and where it ends.
    pub open spec fn parse_finally(self, at: int) -> Result<(Option<Region>, int), ParseError> {
        if self.word(at, "finally"@) {
            match self.parse_expr(self.next(at)) {
                Err(error) => Err(error),
                Ok((finally, end)) => Ok((Some(finally), end)),
            }
        } else {
            Ok((None, at))
        }
    }

    /// What stands in the arm at a position, behind its label and `maybe`, and where it ends.
    pub open spec fn parse_kind(self, at: int) -> Result<(ArmKind, int), ParseError> {
        let pattern_end = self.pattern_end(at);
        if pattern_end is Some && self.punct(pattern_end->0, '=') {
            let pattern = Region { start: at as usize, end: pattern_end->0 as usize };
            match self.parse_arrow(self.next(pattern_end->0)) {
                Err(error) => Err(error),
                Ok((future, body, end)) => Ok(
                    (ArmKind::FutureAndBody { pattern, future, body }, end),
                ),
            }
        } else if pattern_end is Some && self.word(pattern_end->0, "in"@) {
            let pattern = Region { start: at as usize, end: pattern_end->0 as usize };
            match self.parse_arrow(self.next(pattern_end->0)) {
                Err(error) => Err(error),
                Ok((stream, body, end)) => match self.parse_finally(end) {
                    Err(error) => Err(error),
                    Ok((finally, end)) => Ok(
                        (ArmKind::StreamAndBody { pattern, stream, body, finally }, end),
                    ),
                },
            }
        } else {
            match self.parse_expr(at) {
                Err(error) => Err(error),
                Ok((future, end)) => Ok((ArmKind::FutureOnly { future }, end)),
            }
        }
    }

    /// The arm at a position, and where it ends.
    pub open spec fn parse_arm(self, at: int) -> Result<(JoinMeMaybeArm, int), ParseError> {
        let cancel_label = if self.label(at) {
            Some(self.seen(at) as usize)
        } else {
            None
        };
        let at = if self.label(at) {
            self.next(self.next(at))
        } else {
            at
        };
        let is_maybe = self.word(at, "maybe"@);
        let at = if is_maybe {
            self.next(at)
        } else {
            at
        };
        match self.parse_kind(at) {
            Err(error) => Err(error),
            Ok((kind, end)) => Ok((JoinMeMaybeArm { cancel_label, is_maybe, kind }, end)),
        }
    }

    /// The arms from a position on, separated by commas.
    pub open spec fn parse_arms(self, at: int) -> Result<Seq<JoinMeMaybeArm>, ParseError>
        decreases self.trees.len() - at,
    {
        if at < 0 || at >= self.trees.len() {
            Ok(seq![])
        } else {
            proof {
                lemma_arm_advances(self, at);
                if let Ok((_, end)) = self.parse_arm(at) {
                    lemma_next(self, end);
                }
            }
            match self.parse_arm(at) {
                Err(error) => Err(error),
                Ok((arm, end)) => if end >= self.trees.len() {
                    Ok(seq![arm])
                } else if self.pair(end, '=', '>') {
                    Err(ParseError::MissingCapture { at: end as usize })
                } else if !self.punct(end, ',') {
                    Err(ParseError::Expected { what: Expected::Comma, at: end as usize })
                } else {
                    match self.parse_arms(self.next(end)) {
                        Err(error) => Err(error),
                        Ok(arms) => Ok(seq![arm] + arms),
                    }
                },
            }
        }
    }

    /// Whether two labels have the same name.
    pub open spec fn same_label(self, a: Option<usize>, b: Option<usize>) -> bool {
        a is Some && b is Some && self.trees[a->0 as int] == self.trees[b->0 as int]
    }

    /// Whether the label of an arm is that of an arm before it.
    pub open spec fn repeats(self, arms: Seq<JoinMeMaybeArm>, k: int) -> bool {
        exists|m: int|
            0 <= m < k && self.same_label(
                (#[trigger] arms[m]).cancel_label,
                arms[k].cancel_label,
            )
    }

    /// The first arm from `k` on whose label is that of an arm before it, or the number of arms.
    pub open spec fn first_repeat(self, arms: Seq<JoinMeMaybeArm>, k: int) -> int
        decreases arms.len() - k,
    {
        if k >= arms.len() || self.repeats(arms, k) {
            k
        } else {
            self.first_repeat(arms, k + 1)
        }
    }

    /// What the input says, or the first thing that is wrong with it.
    pub open spec fn parse(self) -> Result<Seq<JoinMeMaybeArm>, ParseError> {
        match self.parse_arms(0) {
            Err(error) => Err(error),
            Ok(arms) => if forall|k: int|
                0 <= k < arms.len() ==> (#[trigger] arms[k]).is_maybe {
                Err(ParseError::OnlyMaybe)
            } else if self.first_repeat(arms, 0) < arms.len() {
                Err(
                    ParseError::RepeatedLabel {
                        at: arms[self.first_repeat(arms, 0)].cancel_label->0,
                    },
                )
            } else {
                match self.first_leftover(arms, 0) {
                    Some(error) => Err(error),
                    None => Ok(arms),
                }
            },
        }
    }

    /// A token that is left over inside a group of the expression that starts at a position.
    pub open spec fn expr_leftover(self, at: usize) -> Option<ParseError> {
        if at < self.exprs.len() && self.exprs[at as int] is Ok
            && self.exprs[at as int]->Ok_0.unexpected is Some {
            Some(ParseError::UnexpectedInExpr { at })
        } else {
            None
        }
    }

    /// A token that is left over inside a group of the pattern that starts at a position.
    pub open spec fn pattern_leftover(self, at: usize) -> Option<ParseError> {
        if at < self.patterns.len() && self.patterns[at as int] is Some
            && self.patterns[at as int]->0.unexpected is Some {
            Some(ParseError::UnexpectedInPattern { at })
        } else {
            None
        }
    }

    /// The first token that is left over inside a group of an arm.
    pub open spec fn arm_leftover(self, kind: ArmKind) -> Option<ParseError> {
        match kind {
            ArmKind::FutureOnly { future } => self.expr_leftover(future.start),
            ArmKind::FutureAndBody { pattern, future, body } => either(
                self.pattern_leftover(pattern.start),
                either(self.expr_leftover(future.start), self.expr_leftover(body.start)),
            ),
            ArmKind::StreamAndBody { pattern, stream, body, finally } => either(
                either(self.pattern_leftover(pattern.start), self.expr_leftover(stream.start)),
                either(
                    self.expr_leftover(body.start),
                    match finally {
                        Some(finally) => self.expr_leftover(finally.start),
                        None => None,
                    },
                ),
            ),
        }
    }

    /// The first token that is left over inside a group of an arm, from arm `k` on.
    pub open spec fn first_leftover(self, arms: Seq<JoinMeMaybeArm>, k: int) -> Option<ParseError>
        decreases arms.len() - k,
    {
        if k >= arms.len() {
            None
        } else {
            either(self.arm_leftover(arms[k].kind), self.first_leftover(arms, k + 1))
        }
    }
}

/// The first error of two, if there is one.
pub open spec fn either(first: Option<ParseError>, second: Option<ParseError>) -> Option<
    ParseError,
> {
    if first is Some {
        first
    } else {
        second
    }
}

/// What is seen from a position stands there or behind it.
pub proof fn lemma_seen(source: SourceView, at: int)
    requires
        at >= 0,
    ensures
        at <= source.seen(at),
        at <= source.trees.len() ==> source.seen(at) <= source.trees.len(),
        source.seen(at) < source.trees.len() ==> !(source.trees[source.seen(at)] is Open),
    decreases source.trees.len() - at,
{
    if at < source.trees.len() && source.trees[at] is Open {
        lemma_seen(source, at + 1);
    }
}

/// An arm takes at least one token tree, and none beyond the input.
pub proof fn lemma_arm_advances(source: SourceView, at: int)
    requires
        at >= 0,
    ensures
        source.parse_arm(at) matches Ok((_, end)) ==> at < end <= source.trees.len(),
{
    lemma_next(source, at);
    let at = if source.label(at) {
        source.next(source.next(at))
    } else {
        at
    };
    lemma_next(source, at);
    let at = if source.word(at, "maybe"@) {
        source.next(at)
    } else {
        at
    };
    lemma_kind_advances(source, at);
}

/// The next two positions come after this one.
pub proof fn lemma_next(source: SourceView, at: int)
    requires
        at >= 0,
    ensures
        at <= source.seen(at) < source.next(at) <= source.seen(source.next(at)) < source.next(
            source.next(at),
        ),
{
    lemma_seen(source, at);
    lemma_seen(source, source.next(at));
}

proof fn lemma_arrow_advances(source: SourceView, at: int)
    requires
        at >= 0,
    ensures
        source.parse_arrow(at) matches Ok((_, _, end)) ==> at < end <= source.trees.len(),
{
    if let Ok((_, end)) = source.parse_expr(at) {
        lemma_next(source, end);
    }
}

proof fn lemma_kind_advances(source: SourceView, at: int)
    requires
        at >= 0,
    ensures
        source.parse_kind(at) matches Ok((_, end)) ==> at < end <= source.trees.len(),
{
    if let Some(end) = source.pattern_end(at) {
        lemma_next(source, end);
        lemma_arrow_advances(source, source.next(end));
        if let Ok((_, _, end)) = source.parse_arrow(source.next(end)) {
            lemma_next(source, end);
        }
    }
}

impl Source {
    fn seen(&self, at: usize) -> (found: usize)
        ensures
            found == self@.seen(at as int),
            at <= found,
            self@.trees.len() <= usize::MAX,
    {
        let mut i: usize = at;
        while i < self.trees.len()
            invariant
                at <= i,
                self@.seen(i as int) == self@.seen(at as int),
            decreases self@.trees.len() - i,
        {
            match &self.trees[i] {
                Token::Open(_) => {},
                _ => {
                    return i;
                },
            }
            i = i + 1;
        }
        i
    }

    fn word(&self, at: usize, text: &str) -> (yes: bool)
        ensures
            yes == self@.word(at as int, text@),
            yes ==> at <= self@.seen(at as int) < self@.trees.len() <= usize::MAX,
    {
        let at: usize = self.seen(at);
        if at < self.trees.len() {
            match &self.trees[at] {
                Token::Ident(name) => *name == text.to_string(),
                _ => false,
            }
        } else {
            false
        }
    }

    fn ident(&self, at: usize) -> (yes: bool)
        ensures
            yes == self@.ident(at as int),
            yes ==> at <= self@.seen(at as int) < self@.trees.len() <= usize::MAX,
    {
        at < self.idents.len() && self.idents[at] && self.seen(at) < self.trees.len()
    }

    fn punct(&self, at: usize, ch: char) -> (yes: bool)
        ensures
            yes == self@.punct(at as int, ch),
            yes ==> at <= self@.seen(at as int) < self@.trees.len() <= usize::MAX,
    {
        let at: usize = self.seen(at);
        if at < self.trees.len() {
            match &self.trees[at] {
                Token::Punct(found, _) => *found == ch,
                _ => false,
            }
        } else {
            false
        }
    }

    fn pair(&self, at: usize, first: char, second: char) -> (yes: bool)
        ensures
            yes == self@.pair(at as int, first, second),
            yes ==> at < self@.next(at as int) <= self@.seen(self@.next(at as int))
                < self@.trees.len() <= usize::MAX,
    {
        let at: usize = self.seen(at);
        if at < self.trees.len() {
            match &self.trees[at] {
                Token::Punct(found, joint) => *found == first && *joint && self.punct(
                    at + 1,
                    second,
                ),
                _ => false,
            }
        } else {
            false
        }
    }

    fn next(&self, at: usize) -> (next: usize)
        requires
            self@.seen(at as int) < self@.trees.len(),
        ensures
            next == self@.next(at as int),
            at < next,
    {
        self.seen(at) + 1
    }

    fn expr(&self, at: usize) -> (result: Result<(Region, usize), ParseError>)
        ensures
            match self@.parse_expr(at as int) {
                Ok((region, end)) => {
                    &&& result == Ok::<_, ParseError>((region, end as usize))
                    &&& at < end <= self@.trees.len() <= usize::MAX
                },
                Err(error) => result == Err::<(Region, usize), ParseError>(error),
            },
    {
        if at < self.exprs.len() && at < self.trees.len() {
            if let Ok(found) = &self.exprs[at] {
                if found.left < self.trees.len() - at {
                    let end: usize = self.trees.len() - found.left;
                    return Ok((Region { start: at, end }, end));
                }
            }
        }
        Err(ParseError::Expr { at })
    }

    fn pattern_end(&self, at: usize) -> (end: Option<usize>)
        ensures
            match self@.pattern_end(at as int) {
                Some(e) => end == Some(e as usize) && at < e <= self@.trees.len() <= usize::MAX,
                None => end is None,
            },
    {
        if at < self.patterns.len() && at < self.trees.len() {
            if let Some(found) = &self.patterns[at] {
                if found.left < self.trees.len() - at {
                    return Some(self.trees.len() - found.left);
                }
            }
        }
        None
    }

    fn arrow(&self, start: usize) -> (result: Result<(Region, Region, usize), ParseError>)
        ensures
            match self@.parse_arrow(start as int) {
                Ok((scrutinee, body, end)) => {
                    &&& result == Ok::<_, ParseError>((scrutinee, body, end as usize))
                    &&& start < end <= self@.trees.len() <= usize::MAX
                },
                Err(error) => result == Err::<(Region, Region, usize), ParseError>(error),
            },
    {
        let (scrutinee, end) = match self.expr(start) {
            Ok(found) => found,
            Err(error) => {
                return Err(error);
            },
        };
        if !self.pair(end, '=', '>') {
            return Err(ParseError::Expected { what: Expected::FatArrow, at: end });
        }
        match self.expr(self.next(self.next(end))) {
            Ok((body, end)) => Ok((scrutinee, body, end)),
            Err(error) => Err(error),
        }
    }

    fn finally(&self, at: usize) -> (result: Result<(Option<Region>, usize), ParseError>)
        requires
            at <= self@.trees.len(),
        ensures
            match self@.parse_finally(at as int) {
                Ok((finally, end)) => {
                    &&& result == Ok::<_, ParseError>((finally, end as usize))
                    &&& at <= end <= self@.trees.len()
                },
                Err(error) => result == Err::<(Option<Region>, usize), ParseError>(error),
            },
    {
        if self.word(at, "finally") {
            match self.expr(self.next(at)) {
                Ok((finally, end)) => Ok((Some(finally), end)),
                Err(error) => Err(error),
            }
        } else {
            Ok((None, at))
        }
    }
}

fn first_of(first: Option<ParseError>, second: Option<ParseError>) -> (error: Option<ParseError>)
    ensures
        error == either(first, second),
{
    if first.is_some() {
        first
    } else {
        second
    }
}

impl Source {
    fn expr_leftover(&self, at: usize) -> (error: Option<ParseError>)
        ensures
            error == self@.expr_leftover(at),
    {
        if at < self.exprs.len() {
            if let Ok(found) = &self.exprs[at] {
                if found.unexpected.is_some() {
                    return Some(ParseError::UnexpectedInExpr { at });
                }
            }
        }
        None
    }

    fn pattern_leftover(&self, at: usize) -> (error: Option<ParseError>)
        ensures
            error == self@.pattern_leftover(at),
    {
        if at < self.patterns.len() {
            if let Some(found) = &self.patterns[at] {
                if found.unexpected.is_some() {
                    return Some(ParseError::UnexpectedInPattern { at });
                }
            }
        }
        None
    }

    fn arm_leftover(&self, kind: &ArmKind) -> (error: Option<ParseError>)
        ensures
            error == self@.arm_leftover(*kind),
    {
        match kind {
            ArmKind::FutureOnly { future } => self.expr_leftover(future.start),
            ArmKind::FutureAndBody { pattern, future, body } => first_of(
                self.pattern_leftover(pattern.start),
                first_of(self.expr_leftover(future.start), self.expr_leftover(body.start)),
            ),
            ArmKind::StreamAndBody { pattern, stream, body, finally } => first_of(
                first_of(self.pattern_leftover(pattern.start), self.expr_leftover(stream.start)),
                first_of(
                    self.expr_leftover(body.start),
                    match finally {
                        Some(finally) => self.expr_leftover(finally.start),
                        None => None,
                    },
                ),
            ),
        }
    }
}

impl ArmKind {
    /// Reads what stands in an arm, behind its label and `maybe`.
    fn parse(input: &Source, at: usize) -> (result: Result<(ArmKind, usize), ParseError>)
        ensures
            match input@.parse_kind(at as int) {
                Ok((kind, end)) => {
                    &&& result == Ok::<_, ParseError>((kind, end as usize))
                    &&& at < end <= input@.trees.len() <= usize::MAX
                },
                Err(error) => result == Err::<(ArmKind, usize), ParseError>(error),
            },
    {
        let pattern_end = input.pattern_end(at);
        if let Some(end) = pattern_end {
            let pattern = Region { start: at, end };
            if input.punct(end, '=') {
                return match input.arrow(input.next(end)) {
                    Ok((future, body, end)) => Ok(
                        (ArmKind::FutureAndBody { pattern, future, body }, end),
                    ),
                    Err(error) => Err(error),
                };
            }
            if input.word(end, "in") {
                let (stream, body, end) = match input.arrow(input.next(end)) {
                    Ok(found) => found,
                    Err(error) => {
                        return Err(error);
                    },
                };
                return match input.finally(end) {
                    Ok((finally, end)) => Ok(
                        (ArmKind::StreamAndBody { pattern, stream, body, finally }, end),
                    ),
                    Err(error) => Err(error),
                };
            }
        }
        match input.expr(at) {
            Ok((future, end)) => Ok((ArmKind::FutureOnly { future }, end)),
            Err(error) => Err(error),
        }
    }
}

impl JoinMeMaybeArm {
    /// Reads the arm that starts at a position. The result is the arm and where it ends.
    pub fn parse(input: &Source, at: usize) -> (result: Result<(JoinMeMaybeArm, usize), ParseError>)
        ensures
            match input@.parse_arm(at as int) {
                Ok((arm, end)) => {
                    &&& result == Ok::<_, ParseError>((arm, end as usize))
                    &&& at < end <= input@.trees.len() <= usize::MAX
                },
                Err(error) => result == Err::<(JoinMeMaybeArm, usize), ParseError>(error),
            },
    {
        proof {
            lemma_arm_advances(input@, at as int);
        }
        let mut at: usize = at;
        let mut cancel_label: Option<usize> = None;
        if input.ident(at) {
            let after: usize = input.next(at);
            if input.punct(after, ':') && !input.pair(after, ':', ':') {
                cancel_label = Some(input.seen(at));
                at = input.next(after);
            }
        }
        let is_maybe: bool = input.word(at, "maybe");
        if is_maybe {
            at = input.next(at);
        }
        match ArmKind::parse(input, at) {
            Ok((kind, end)) => Ok((JoinMeMaybeArm { cancel_label, is_maybe, kind }, end)),
            Err(error) => Err(error),
        }
    }
}

/// The arms that were read before, then those that are still to be read.
pub open spec fn prepend(
    arms: Seq<JoinMeMaybeArm>,
    rest: Result<Seq<JoinMeMaybeArm>, ParseError>,
) -> Result<Seq<JoinMeMaybeArm>, ParseError> {
    match rest {
        Ok(rest) => Ok(arms + rest),
        Err(error) => Err(error),
    }
}

impl JoinMeMaybe {
    /// Reads the input of the macro.
    pub fn parse(input: &Source) -> (result: Result<JoinMeMaybe, ParseError>)
        ensures
            match input@.parse() {
                Ok(arms) => result is Ok && result->Ok_0.arms@ == arms,
                Err(error) => result is Err && result->Err_0 == error,
            },
    {
        let mut arms: Vec<JoinMeMaybeArm> = Vec::new();
        let mut at: usize = 0;
        proof {
            if let Ok(all) = input@.parse_arms(0) {
                assert(arms@ + all =~= all);
            }
        }
        while at < input.trees.len()
            invariant
                at <= input@.trees.len(),
                labels_in_range(input@, arms@),
                input@.parse_arms(0) == prepend(arms@, input@.parse_arms(at as int)),
            decreases input@.trees.len() - at,
        {
            let (arm, end) = match JoinMeMaybeArm::parse(input, at) {
                Ok(found) => found,
                Err(error) => {
                    return Err(error);
                },
            };
            let ghost before = arms@;
            proof {
                lemma_seen(input@, at as int);
            }
            arms.push(arm);
            if end < input.trees.len() {
                if input.pair(end, '=', '>') {
                    return Err(ParseError::MissingCapture { at: end });
                }
                if !input.punct(end, ',') {
                    return Err(ParseError::Expected { what: Expected::Comma, at: end });
                }
                proof {
                    if let Ok(rest) = input@.parse_arms(input@.next(end as int)) {
                        assert(before + (seq![arm] + rest) =~= arms@ + rest);
                    }
                }
                at = input.next(end);
            } else {
                proof {
                    assert(before + seq![arm] =~= arms@ + Seq::<JoinMeMaybeArm>::empty());
                }
                at = end;
            }
        }
        proof {
            assert(arms@ + Seq::<JoinMeMaybeArm>::empty() =~= arms@);
        }
        if Self::all_maybe(&arms) {
            return Err(ParseError::OnlyMaybe);
        }
        match Self::repeated_label(input, &arms) {
            Some(at) => Err(ParseError::RepeatedLabel { at }),
            None => match Self::leftover(input, &arms) {
                Some(error) => Err(error),
                None => Ok(JoinMeMaybe { arms }),
            },
        }
    }

    fn leftover(input: &Source, arms: &Vec<JoinMeMaybeArm>) -> (error: Option<ParseError>)
        ensures
            error == input@.first_leftover(arms@, 0),
    {
        for k in 0..arms.len()
            invariant
                input@.first_leftover(arms@, 0) == input@.first_leftover(arms@, k as int),
        {
            let error = input.arm_leftover(&arms[k].kind);
            if error.is_some() {
                return error;
            }
        }
        None
    }

    fn all_maybe(arms: &Vec<JoinMeMaybeArm>) -> (yes: bool)
        ensures
            yes == forall|k: int| 0 <= k < arms@.len() ==> (#[trigger] arms@[k]).is_maybe,
    {
        for k in 0..arms.len()
            invariant
                forall|m: int| 0 <= m < k ==> (#[trigger] arms@[m]).is_maybe,
        {
            if !arms[k].is_maybe {
                return false;
            }
        }
        true
    }

    fn repeated_label(input: &Source, arms: &Vec<JoinMeMaybeArm>) -> (label: Option<usize>)
        requires
            labels_in_range(input@, arms@),
        ensures
            match label {
                Some(at) => {
                    let k = input@.first_repeat(arms@, 0);
                    &&& k < arms@.len()
                    &&& at == arms@[k].cancel_label->0
                },
                None => input@.first_repeat(arms@, 0) >= arms@.len(),
            },
    {
        for k in 0..arms.len()
            invariant
                labels_in_range(input@, arms@),
                input@.first_repeat(arms@, 0) == input@.first_repeat(arms@, k as int),
        {
            if let Some(at) = arms[k].cancel_label {
                for m in 0..k
                    invariant
                        k < arms@.len(),
                        arms@[k as int].cancel_label == Some(at),
                        labels_in_range(input@, arms@),
                        input@.first_repeat(arms@, 0) == input@.first_repeat(arms@, k as int),
                        forall|q: int|
                            0 <= q < m ==> !input@.same_label(
                                (#[trigger] arms@[q]).cancel_label,
                                Some(at),
                            ),
                {
                    if let Some(other) = arms[m].cancel_label {
                        if input.trees[other].same(&input.trees[at]) {
                            proof {
                                assert(input@.repeats(arms@, k as int)) by {
                                    assert(input@.same_label(
                                        arms@[m as int].cancel_label,
                                        arms@[k as int].cancel_label,
                                    ));
                                }
                            }
                            return Some(at);
                        }
                    }
                }
            }
        }
        None
    }
}

/// Whether the labels of the arms stand in the input.
pub open spec fn labels_in_range(source: SourceView, arms: Seq<JoinMeMaybeArm>) -> bool {
    forall|k: int|
        0 <= k < arms.len() && (#[trigger] arms[k]).cancel_label is Some
            ==> arms[k].cancel_label->0 < source.trees.len()
}

impl Token {
    fn same(&self, other: &Token) -> (yes: bool)
        ensures
            yes == (self@ == other@),
    {
        match (self, other) {
            (Token::Ident(a), Token::Ident(b)) => *a == *b,
            (Token::Punct(a, joint), Token::Punct(b, other_joint)) => *a == *b && *joint
                == *other_joint,
            (Token::Literal, Token::Literal) => true,
            (Token::Group, Token::Group) => true,
            (Token::Open(a), Token::Open(b)) => *a == *b,
            _ => false,
        }
    }
}

impl SourceView {
    /// The text of the word at a position, if a word stands there.
    pub open spec fn word_at(self, at: int) -> Seq<char> {
        if 0 <= at < self.trees.len() && self.trees[at] is Ident {
            self.trees[at]->Ident_0
        } else {
            ""@
        }
    }

    /// Why the expression at a position is refused.
    pub open spec fn expr_message(self, at: int) -> Seq<char> {
        if 0 <= at < self.exprs.len() && self.exprs[at] is Err {
            self.exprs[at]->Err_0
        } else {
            "expected an expression"@
        }
    }

    /// What is left over inside a group of the expression at a position.
    pub open spec fn expr_leftover_message(self, at: int) -> Seq<char> {
        if 0 <= at < self.exprs.len() && self.exprs[at] is Ok
            && self.exprs[at]->Ok_0.unexpected is Some {
            self.exprs[at]->Ok_0.unexpected->0
        } else {
            "unexpected token"@
        }
    }

    /// What is left over inside a group of the pattern at a position.
    pub open spec fn pattern_leftover_message(self, at: int) -> Seq<char> {
        if 0 <= at < self.patterns.len() && self.patterns[at] is Some
            && self.patterns[at]->0.unexpected is Some {
            self.patterns[at]->0.unexpected->0
        } else {
            "unexpected token"@
        }
    }
}

impl ParseError {
    /// The message of an error.
    pub open spec fn spec_message(self, source: SourceView) -> Seq<char> {
        match self {
            ParseError::Expr { at } => source.expr_message(at as int),
            ParseError::Expected { what: Expected::Comma, .. } => "expected `,`"@,
            ParseError::Expected { what: Expected::FatArrow, .. } => "expected `=>`"@,
            ParseError::MissingCapture { .. } =>
            "`[fut] => [body]` is not allowed, you must write `[output] = [fut] => [body]`"@,
            ParseError::OnlyMaybe =>
            "unexpected end of input, a `join!` with only `maybe` arms returns immediately and executes nothing"@,
            ParseError::RepeatedLabel { at } => "the label `"@ + source.word_at(at as int)
                + "` is used more than once"@,
            ParseError::UnexpectedInExpr { at } => source.expr_leftover_message(at as int),
            ParseError::UnexpectedInPattern { at } => source.pattern_leftover_message(at as int),
        }
    }

    /// The message of the error, for the user of the macro.
    pub fn message(&self, input: &Source) -> (text: String)
        ensures
            text@ == self.spec_message(input@),
    {
        match self {
            ParseError::Expr { at } => {
                if *at < input.exprs.len() {
                    if let Err(message) = &input.exprs[*at] {
                        return message.clone();
                    }
                }
                "expected an expression".to_string()
            },
            ParseError::Expected { what: Expected::Comma, .. } => "expected `,`".to_string(),
            ParseError::Expected { what: Expected::FatArrow, .. } => "expected `=>`".to_string(),
            ParseError::MissingCapture { .. } =>
            "`[fut] => [body]` is not allowed, you must write `[output] = [fut] => [body]`".to_string(),
            ParseError::OnlyMaybe =>
            "unexpected end of input, a `join!` with only `maybe` arms returns immediately and executes nothing".to_string(),
            ParseError::RepeatedLabel { at } => {
                let mut text = "the label `".to_string();
                if *at < input.trees.len() {
                    if let Token::Ident(name) = &input.trees[*at] {
                        text.append(name.as_str());
                    }
                }
                proof {
                    reveal_strlit("");
                    assert("the label `"@ + ""@ =~= "the label `"@);
                }
                text.append("` is used more than once");
                text
            },
            ParseError::UnexpectedInExpr { at } => {
                if *at < input.exprs.len() {
                    if let Ok(found) = &input.exprs[*at] {
                        if let Some(message) = &found.unexpected {
                            return message.clone();
                        }
                    }
                }
                "unexpected token".to_string()
            },
            ParseError::UnexpectedInPattern { at } => {
                if *at < input.patterns.len() {
                    if let Some(found) = &input.patterns[*at] {
                        if let Some(message) = &found.unexpected {
                            return message.clone();
                        }
                    }
                }
                "unexpected token".to_string()
            },
        }
    }
}

impl JoinMeMaybeArm {
    /// The form of the arm.
    pub open spec fn spec_shape(self) -> ArmShape {
        ArmShape {
            kind: match self.kind {
                ArmKind::FutureOnly { .. } => Kind::Future,
                ArmKind::FutureAndBody { .. } => Kind::FutureBody,
                ArmKind::StreamAndBody { finally, .. } => if finally is Some {
                    Kind::StreamFinally
                } else {
                    Kind::Stream
                },
            },
            is_maybe: self.is_maybe,
            labeled: self.cancel_label is Some,
        }
    }

    /// The form of the arm, by which it is run.
    pub fn shape(&self) -> (shape: ArmShape)
        ensures
            shape == self.spec_shape(),
    {
        ArmShape {
            kind: match &self.kind {
                ArmKind::FutureOnly { .. } => Kind::Future,
                ArmKind::FutureAndBody { .. } => Kind::FutureBody,
                ArmKind::StreamAndBody { finally, .. } => if finally.is_some() {
                    Kind::StreamFinally
                } else {
                    Kind::Stream
                },
            },
            is_maybe: self.is_maybe,
            labeled: self.cancel_label.is_some(),
        }
    }
}

impl JoinMeMaybe {
    /// The forms of the arms, in order.
    pub fn shapes(&self) -> (shapes: Vec<ArmShape>)
        ensures
            shapes@ == self.arms@.map_values(|arm: JoinMeMaybeArm| arm.spec_shape()),
    {
        let mut shapes: Vec<ArmShape> = Vec::new();
        for i in 0..self.arms.len()
            invariant
                shapes@.len() == i,
                forall|k: int| 0 <= k < i ==> shapes@[k] == (#[trigger] self.arms@[k]).spec_shape(),
        {
            shapes.push(self.arms[i].shape());
        }
        shapes
    }
}

impl Region {
    /// Whether the region is not empty and lies between the two positions.
    pub open spec fn within(self, low: int, high: int) -> bool {
        low <= self.start < self.end <= high
    }
}

impl JoinMeMaybeArm {
    /// Whether the parts of the arm follow each other between the two positions, none of them
    /// empty.
    pub open spec fn laid_out(self, low: int, high: int) -> bool {
        let first = match self.cancel_label {
            Some(at) => at + 2,
            None => low,
        };
        &&& self.cancel_label is Some ==> low <= self.cancel_label->0
        &&& match self.kind {
            ArmKind::FutureOnly { future } => future.within(first, high),
            ArmKind::FutureAndBody { pattern, future, body } => {
                &&& pattern.within(first, high)
                &&& future.within(pattern.end + 1, high)
                &&& body.within(future.end + 2, high)
            },
            ArmKind::StreamAndBody { pattern, stream, body, finally } => {
                &&& pattern.within(first, high)
                &&& stream.within(pattern.end + 1, high)
                &&& body.within(stream.end + 2, high)
                &&& finally is Some ==> finally->0.within(body.end + 1, high)
            },
        }
    }
}

/// An input that is accepted has something to wait for, and no label twice.
pub proof fn accepted_join_is_sound(source: SourceView)
    requires
        source.parse() is Ok,
    ensures
        ({
            let arms = source.parse()->Ok_0;
            &&& exists|k: int| 0 <= k < arms.len() && !(#[trigger] arms[k]).is_maybe
            &&& forall|m: int, k: int|
                0 <= m < k < arms.len() ==> !source.same_label(
                    (#[trigger] arms[m]).cancel_label,
                    (#[trigger] arms[k]).cancel_label,
                )
        }),
{
    let arms = source.parse()->Ok_0;
    lemma_no_repeat(source, arms, 0);
    assert forall|m: int, k: int| 0 <= m < k < arms.len() implies !source.same_label(
        (#[trigger] arms[m]).cancel_label,
        (#[trigger] arms[k]).cancel_label,
    ) by {
        assert(!source.repeats(arms, k));
    }
}

proof fn lemma_no_repeat(source: SourceView, arms: Seq<JoinMeMaybeArm>, k: int)
    requires
        source.first_repeat(arms, k) >= arms.len(),
        0 <= k <= arms.len(),
    ensures
        forall|q: int| k <= q < arms.len() ==> !#[trigger] source.repeats(arms, q),
    decreases arms.len() - k,
{
    if k < arms.len() {
        lemma_no_repeat(source, arms, k + 1);
    }
}

impl SourceView {
    /// Whether arm `k` lies between its mark and the next.
    pub open spec fn lies_between(
        self,
        arms: Seq<JoinMeMaybeArm>,
        marks: Seq<int>,
        k: int,
    ) -> bool {
        &&& marks[k] < marks[k + 1]
        &&& marks[k + 1] <= self.trees.len()
        &&& arms[k].laid_out(marks[k], marks[k + 1])
    }
}

proof fn lemma_arm_laid_out(source: SourceView, at: int, high: int)
    requires
        source.trees.len() <= usize::MAX,
        at >= 0,
        source.parse_arm(at) is Ok,
        source.parse_arm(at)->Ok_0.1 <= high,
    ensures
        source.parse_arm(at)->Ok_0.0.laid_out(at, high),
{
    lemma_next(source, at);
    let at = if source.label(at) {
        source.next(source.next(at))
    } else {
        at
    };
    lemma_next(source, at);
    let at = if source.word(at, "maybe"@) {
        source.next(at)
    } else {
        at
    };
    if let Some(end) = source.pattern_end(at) {
        lemma_next(source, end);
        let start = source.next(end);
        lemma_arrow_advances(source, start);
        if let Ok((_, end)) = source.parse_expr(start) {
            lemma_next(source, end);
        }
        if let Ok((_, _, end)) = source.parse_arrow(start) {
            lemma_next(source, end);
        }
    }
}

/// The arms of an input follow each other in it: there are positions, one before each arm and one
/// at the end, such that each arm lies between its position and the next.
pub proof fn arms_are_laid_out(source: SourceView, at: int) -> (marks: Seq<int>)
    requires
        source.trees.len() <= usize::MAX,
        source.parse_arms(at) is Ok,
        at >= 0,
    ensures
        ({
            let arms = source.parse_arms(at)->Ok_0;
            &&& marks.len() == arms.len() + 1
            &&& marks[0] == at
            &&& forall|k: int| 0 <= k < arms.len() ==> #[trigger] source.lies_between(arms, marks, k)
        }),
    decreases source.trees.len() - at,
{
    if at >= source.trees.len() {
        seq![at]
    } else {
        lemma_arm_advances(source, at);
        let (arm, end) = source.parse_arm(at)->Ok_0;
        if end >= source.trees.len() {
            lemma_arm_laid_out(source, at, end);
            let arms = source.parse_arms(at)->Ok_0;
            assert(arms == seq![arm]);
            let all = seq![at, end];
            assert forall|k: int| 0 <= k < arms.len() implies #[trigger] source.lies_between(
                arms,
                all,
                k,
            ) by {
                assert(k == 0);
                assert(all[0] == at && all[1] == end);
            }
            all
        } else {
            lemma_next(source, end);
            lemma_arm_laid_out(source, at, source.next(end));
            let marks = arms_are_laid_out(source, source.next(end));
            let arms = source.parse_arms(at)->Ok_0;
            let rest = source.parse_arms(source.next(end))->Ok_0;
            assert(arms == seq![arm] + rest);
            let all = seq![at] + marks;
            assert forall|k: int| 0 <= k < arms.len() implies #[trigger] source.lies_between(
                arms,
                all,
                k,
            ) by {
                if k == 0 {
                    assert(arms[k] == arm);
                } else {
                    assert(arms[k] == rest[k - 1]);
                    assert(all[k] == marks[k - 1] && all[k + 1] == marks[k]);
                    assert(source.lies_between(rest, marks, k - 1));
                }
            }
            all
        }
    }
}

/// Whether the second input is the first with a comma behind it, such that the comma moves the end
/// of no expression and no pattern.
pub open spec fn comma_added(a: SourceView, b: SourceView) -> bool {
    let n = a.trees.len() as int;
    &&& b.trees.len() == n + 1
    &&& forall|i: int| 0 <= i < n ==> b.trees[i] == #[trigger] a.trees[i]
    &&& b.trees[n] is Punct
    &&& b.trees[n]->Punct_0 == ','
    &&& forall|i: int| 0 <= i < n ==> b.has_ident(i) == #[trigger] a.has_ident(i)
    &&& forall|i: int|
        0 <= i < n && (#[trigger] a.expr_end(i)) is Some ==> b.expr_end(i) == a.expr_end(i)
    &&& forall|i: int| 0 <= i < n ==> b.pattern_end(i) == #[trigger] a.pattern_end(i)
    &&& forall|i: usize|
        i < n && a.expr_end(i as int) is Some ==> b.expr_leftover(i) == #[trigger] a.expr_leftover(i)
    &&& forall|i: usize| i < n ==> b.pattern_leftover(i) == #[trigger] a.pattern_leftover(i)
}

proof fn lemma_comma_seen(a: SourceView, b: SourceView, at: int)
    requires
        comma_added(a, b),
        0 <= at <= a.trees.len(),
    ensures
        b.seen(at) == a.seen(at),
        at <= a.seen(at) <= a.trees.len(),
        forall|text: Seq<char>| #[trigger] b.word(at, text) == a.word(at, text),
        forall|ch: char| ch != ',' ==> #[trigger] b.punct(at, ch) == a.punct(at, ch),
        a.punct(at, ',') ==> b.punct(at, ','),
    decreases a.trees.len() - at,
{
    if at < a.trees.len() {
        assert(b.trees[at] == a.trees[at]);
        if a.trees[at] is Open {
            lemma_comma_seen(a, b, at + 1);
        }
    }
}

/// A comma behind the input changes no look at one or two tokens, but for a look at that comma.
proof fn lemma_comma_next(a: SourceView, b: SourceView, at: int)
    requires
        comma_added(a, b),
        0 <= at <= a.trees.len(),
    ensures
        b.next(at) == a.next(at),
        a.seen(at) < a.trees.len() ==> at < a.next(at) <= a.trees.len(),
        forall|x: char, y: char|
            x != ',' && y != ',' ==> #[trigger] b.pair(at, x, y) == a.pair(at, x, y),
        a.seen(at) < a.trees.len() ==> b.punct(a.next(at), ':') == a.punct(a.next(at), ':'),
        a.seen(at) >= a.trees.len() ==> !b.punct(a.next(at), ':'),
{
    lemma_comma_seen(a, b, at);
    if a.seen(at) < a.trees.len() {
        assert(b.trees[a.seen(at)] == a.trees[a.seen(at)]);
        lemma_comma_seen(a, b, a.next(at));
    }
}

proof fn lemma_comma_label(a: SourceView, b: SourceView, at: int)
    requires
        comma_added(a, b),
        0 <= at < a.trees.len(),
    ensures
        b.label(at) == a.label(at),
        a.label(at) ==> at < a.next(a.next(at)) <= a.trees.len() && a.seen(at) < a.trees.len(),
{
    assert(b.has_ident(at) == a.has_ident(at));
    lemma_comma_seen(a, b, at);
    lemma_comma_next(a, b, at);
    if a.seen(at) < a.trees.len() {
        lemma_comma_next(a, b, a.next(at));
    }
}

proof fn lemma_comma_expr(a: SourceView, b: SourceView, at: int)
    requires
        comma_added(a, b),
        a.trees.len() <= usize::MAX,
        at >= 0,
        a.parse_expr(at) is Ok,
    ensures
        b.parse_expr(at) == a.parse_expr(at),
        at < a.trees.len(),
        b.expr_leftover(at as usize) == a.expr_leftover(at as usize),
{
    assert(b.expr_end(at) == a.expr_end(at));
}

proof fn lemma_comma_arrow(a: SourceView, b: SourceView, at: int)
    requires
        comma_added(a, b),
        a.trees.len() <= usize::MAX,
        at >= 0,
        a.parse_arrow(at) is Ok,
    ensures
        b.parse_arrow(at) == a.parse_arrow(at),
        ({
            let (scrutinee, body, end) = a.parse_arrow(at)->Ok_0;
            &&& b.expr_leftover(scrutinee.start) == a.expr_leftover(scrutinee.start)
            &&& b.expr_leftover(body.start) == a.expr_leftover(body.start)
            &&& 0 <= end <= a.trees.len()
        }),
{
    lemma_comma_expr(a, b, at);
    let (scrutinee, end) = a.parse_expr(at)->Ok_0;
    lemma_comma_next(a, b, end);
    lemma_next(a, end);
    assert(b.pair(end, '=', '>') == a.pair(end, '=', '>'));
    lemma_comma_next(a, b, a.next(end));
    lemma_comma_expr(a, b, a.next(a.next(end)));
}

proof fn lemma_comma_kind(a: SourceView, b: SourceView, at: int)
    requires
        comma_added(a, b),
        a.trees.len() <= usize::MAX,
        at >= 0,
        a.parse_kind(at) is Ok,
    ensures
        b.parse_kind(at) == a.parse_kind(at),
        b.arm_leftover(a.parse_kind(at)->Ok_0.0) == a.arm_leftover(a.parse_kind(at)->Ok_0.0),
{
    if at >= a.trees.len() {
        assert(a.pattern_end(at) is None);
        assert(a.parse_expr(at) is Err);
    }
    assert(b.pattern_end(at) == a.pattern_end(at));
    if let Some(end) = a.pattern_end(at) {
        lemma_comma_seen(a, b, end);
        lemma_comma_next(a, b, end);
        lemma_next(a, end);
        assert(b.punct(end, '=') == a.punct(end, '='));
        assert(b.word(end, "in"@) == a.word(end, "in"@));
        assert(b.pattern_leftover(at as usize) == a.pattern_leftover(at as usize));
        if a.punct(end, '=') || a.word(end, "in"@) {
            let start = a.next(end);
            lemma_comma_arrow(a, b, start);
            let (_, _, end) = a.parse_arrow(start)->Ok_0;
            lemma_comma_seen(a, b, end);
            lemma_comma_next(a, b, end);
            lemma_next(a, end);
            assert(b.word(end, "finally"@) == a.word(end, "finally"@));
            if !a.punct(a.pattern_end(at)->0, '=') && a.word(end, "finally"@) {
                lemma_comma_expr(a, b, a.next(end));
            }
        } else {
            lemma_comma_expr(a, b, at);
        }
    } else {
        lemma_comma_expr(a, b, at);
    }
}

proof fn lemma_comma_arm(a: SourceView, b: SourceView, at: int)
    requires
        comma_added(a, b),
        a.trees.len() <= usize::MAX,
        0 <= at < a.trees.len(),
        a.parse_arm(at) is Ok,
    ensures
        b.parse_arm(at) == a.parse_arm(at),
        ({
            let arm = a.parse_arm(at)->Ok_0.0;
            &&& b.arm_leftover(arm.kind) == a.arm_leftover(arm.kind)
            &&& arm.cancel_label is Some ==> arm.cancel_label->0 < a.trees.len()
        }),
{
    lemma_comma_label(a, b, at);
    lemma_comma_seen(a, b, at);
    lemma_comma_next(a, b, at);
    lemma_next(a, at);
    if a.label(at) {
        lemma_comma_next(a, b, a.next(at));
    }
    let at = if a.label(at) {
        a.next(a.next(at))
    } else {
        at
    };
    lemma_comma_seen(a, b, at);
    lemma_comma_next(a, b, at);
    assert(b.word(at, "maybe"@) == a.word(at, "maybe"@));
    let at = if a.word(at, "maybe"@) {
        a.next(at)
    } else {
        at
    };
    lemma_comma_kind(a, b, at);
}

proof fn lemma_comma_arms(a: SourceView, b: SourceView, at: int)
    requires
        comma_added(a, b),
        a.trees.len() <= usize::MAX,
        0 <= at < a.trees.len(),
        a.parse_arms(at) is Ok,
        !(a.trees.last() is Punct && a.trees.last()->Punct_0 == ','),
    ensures
        b.parse_arms(at) == a.parse_arms(at),
        ({
            let arms = a.parse_arms(at)->Ok_0;
            &&& labels_in_range(a, arms)
            &&& forall|k: int|
                0 <= k < arms.len() ==> b.arm_leftover((#[trigger] arms[k]).kind) == a.arm_leftover(
                    arms[k].kind,
                )
        }),
    decreases a.trees.len() - at,
{
    lemma_arm_advances(a, at);
    lemma_comma_arm(a, b, at);
    let n = a.trees.len() as int;
    let (arm, end) = a.parse_arm(at)->Ok_0;
    lemma_comma_seen(a, b, end);
    lemma_comma_next(a, b, end);
    assert(b.pair(end, '=', '>') == a.pair(end, '=', '>'));
    if end >= n {
        assert(b.seen(n) == n);
        assert(b.punct(n, ','));
        assert(b.parse_arms(n + 1) == Ok::<Seq<JoinMeMaybeArm>, ParseError>(seq![]));
        assert(seq![arm] + Seq::<JoinMeMaybeArm>::empty() =~= seq![arm]);
    } else {
        let next = a.next(end);
        assert(a.seen(end) < n);
        if next >= n {
            assert(a.seen(end) == n - 1);
            assert(a.trees.last() == a.trees[n - 1]);
        }
        lemma_comma_arms(a, b, next);
    }
}

proof fn lemma_same_leftover(a: SourceView, b: SourceView, arms: Seq<JoinMeMaybeArm>, k: int)
    requires
        k >= 0,
        forall|k: int|
            0 <= k < arms.len() ==> b.arm_leftover((#[trigger] arms[k]).kind) == a.arm_leftover(
                arms[k].kind,
            ),
    ensures
        b.first_leftover(arms, k) == a.first_leftover(arms, k),
    decreases arms.len() - k,
{
    if k < arms.len() {
        lemma_same_leftover(a, b, arms, k + 1);
    }
}

proof fn lemma_same_repeat(a: SourceView, b: SourceView, arms: Seq<JoinMeMaybeArm>, k: int)
    requires
        comma_added(a, b),
        labels_in_range(a, arms),
        k >= 0,
    ensures
        b.first_repeat(arms, k) == a.first_repeat(arms, k),
    decreases arms.len() - k,
{
    if k < arms.len() {
        assert forall|m: int| 0 <= m < k implies b.same_label(
            (#[trigger] arms[m]).cancel_label,
            arms[k].cancel_label,
        ) == a.same_label(arms[m].cancel_label, arms[k].cancel_label) by {
            if arms[m].cancel_label is Some && arms[k].cancel_label is Some {
                let (x, y) = (arms[m].cancel_label->0 as int, arms[k].cancel_label->0 as int);
                assert(b.trees[x] == a.trees[x] && b.trees[y] == a.trees[y]);
            }
        }
        assert(b.repeats(arms, k) == a.repeats(arms, k));
        lemma_same_repeat(a, b, arms, k + 1);
    }
}

proof fn lemma_comma_parse(a: SourceView, b: SourceView)
    requires
        comma_added(a, b),
        a.trees.len() <= usize::MAX,
        !(a.trees.len() > 0 && a.trees.last() is Punct && a.trees.last()->Punct_0 == ','),
        a.parse() is Ok,
    ensures
        b.parse() == a.parse(),
{
    let arms = a.parse_arms(0)->Ok_0;
    assert(a.trees.len() > 0) by {
        if a.trees.len() == 0 {
            assert(arms =~= seq![]);
        }
    }
    lemma_comma_arms(a, b, 0);
    lemma_same_repeat(a, b, arms, 0);
    lemma_same_leftover(a, b, arms, 0);
}

/// Whether a comma behind these token trees stays out of what the Rust parser finds before it: it
/// does not change whether an identifier comes first, an expression that comes first leaves it
/// behind, and so does a pattern, which is found with the comma only if it is found without.
pub open spec fn comma_stays_behind(trees: Seq<TreeView>, comma: TreeView) -> bool {
    &&& source::ident_first(trees.push(comma)) == source::ident_first(trees)
    &&& source::expr_first(trees) matches Ok((rest, unexpected)) ==> source::expr_first(
        trees.push(comma),
    ) == Ok::<_, Seq<char>>((rest.push(comma), unexpected))
    &&& source::pattern_first(trees.push(comma)) == match source::pattern_first(trees) {
        Some((rest, unexpected)) => Some((rest.push(comma), unexpected)),
        None => None,
    }
}

proof fn lemma_push_entry(trees: Seq<TreeView>, joint: bool)
    ensures
        source::entries(trees.push(TreeView::Punct(',', joint))) == source::entries(trees).push(
            TokenView::Punct(',', joint),
        ),
{
    let comma = TreeView::Punct(',', joint);
    source::lemma_entries_add(trees, seq![comma]);
    assert(trees.push(comma) =~= trees + seq![comma]);
    assert(seq![comma].drop_first() =~= seq![]);
    assert(source::entries(Seq::<TreeView>::empty()) =~= seq![]);
    assert(source::entries(seq![comma]) =~= seq![TokenView::Punct(',', joint)]);
    assert(source::entries(trees) + seq![TokenView::Punct(',', joint)] =~= source::entries(
        trees,
    ).push(TokenView::Punct(',', joint)));
}

proof fn lemma_push_without(trees: Seq<TreeView>, comma: TreeView, n: nat)
    requires
        n <= source::entries(trees).len(),
    ensures
        source::without(trees.push(comma), n) == source::without(trees, n).push(comma),
    decreases n,
{
    if n > 0 {
        let m = (n - 1) as nat;
        lemma_push_without(trees, comma, m);
        let rest = source::without(trees, m);
        source::lemma_without(trees, m);
        assert(rest.len() > 0) by {
            assert(source::entries(rest).len() > 0);
        }
        assert(rest.push(comma)[0] == rest[0]);
        assert(rest.push(comma).drop_first() =~= rest.drop_first().push(comma));
        if let TreeView::Group(Delim::Hidden, inner) = rest[0] {
            assert(inner + rest.drop_first().push(comma) =~= (inner + rest.drop_first()).push(
                comma,
            ));
        }
    }
}

proof fn lemma_comma_known(trees: Seq<TreeView>, joint: bool, i: nat)
    requires
        i < source::entries(trees).len(),
        comma_stays_behind(source::without(trees, i), TreeView::Punct(',', joint)),
    ensures
        ({
            let a = SourceView::of(trees);
            let b = SourceView::of(trees.push(TreeView::Punct(',', joint)));
            &&& b.has_ident(i as int) == a.has_ident(i as int)
            &&& a.expr_end(i as int) is Some ==> b.expr_end(i as int) == a.expr_end(i as int)
            &&& b.pattern_end(i as int) == a.pattern_end(i as int)
            &&& i <= usize::MAX && a.expr_end(i as int) is Some ==> b.expr_leftover(i as usize)
                == a.expr_leftover(i as usize)
            &&& i <= usize::MAX ==> b.pattern_leftover(i as usize) == a.pattern_leftover(
                i as usize,
            )
        }),
{
    let comma = TreeView::Punct(',', joint);
    let here = source::without(trees, i);
    lemma_push_entry(trees, joint);
    lemma_push_without(trees, comma, i);
    if let Ok((rest, _)) = source::expr_first(here) {
        lemma_push_entry(rest, joint);
    }
    if let Some((rest, _)) = source::pattern_first(here) {
        lemma_push_entry(rest, joint);
    }
}

/// A trailing comma changes nothing: if an input that does not end in a comma is accepted, then so
/// is the same input with a comma behind it, with the same arms. This rests on the Rust parser
/// alone, which has to leave the comma behind wherever it reads.
pub proof fn trailing_comma_changes_nothing(trees: Seq<TreeView>, joint: bool)
    requires
        source::entries(trees).len() <= usize::MAX,
        !(source::entries(trees).len() > 0 && source::entries(trees).last() is Punct
            && source::entries(trees).last()->Punct_0 == ','),
        forall|i: nat|
            i < source::entries(trees).len() ==> comma_stays_behind(
                #[trigger] source::without(trees, i),
                TreeView::Punct(',', joint),
            ),
        SourceView::of(trees).parse() is Ok,
    ensures
        SourceView::of(trees.push(TreeView::Punct(',', joint))).parse() == SourceView::of(
            trees,
        ).parse(),
{
    let a = SourceView::of(trees);
    let b = SourceView::of(trees.push(TreeView::Punct(',', joint)));
    let n = a.trees.len();
    lemma_push_entry(trees, joint);
    assert forall|i: int| 0 <= i < n implies b.has_ident(i) == #[trigger] a.has_ident(i) by {
        assert(comma_stays_behind(source::without(trees, i as nat), TreeView::Punct(',', joint)));
        lemma_comma_known(trees, joint, i as nat);
    }
    assert forall|i: int| 0 <= i < n && (#[trigger] a.expr_end(i)) is Some implies b.expr_end(i)
        == a.expr_end(i) by {
        assert(comma_stays_behind(source::without(trees, i as nat), TreeView::Punct(',', joint)));
        lemma_comma_known(trees, joint, i as nat);
    }
    assert forall|i: int| 0 <= i < n implies b.pattern_end(i) == #[trigger] a.pattern_end(i) by {
        assert(comma_stays_behind(source::without(trees, i as nat), TreeView::Punct(',', joint)));
        lemma_comma_known(trees, joint, i as nat);
    }
    assert forall|i: usize| i < n && a.expr_end(i as int) is Some implies b.expr_leftover(i)
        == #[trigger] a.expr_leftover(i) by {
        assert(comma_stays_behind(source::without(trees, i as nat), TreeView::Punct(',', joint)));
        lemma_comma_known(trees, joint, i as nat);
    }
    assert forall|i: usize| i < n implies b.pattern_leftover(i) == #[trigger] a.pattern_leftover(
        i,
    ) by {
        assert(comma_stays_behind(source::without(trees, i as nat), TreeView::Punct(',', joint)));
        lemma_comma_known(trees, joint, i as nat);
    }
    lemma_comma_parse(a, b);
}

impl SourceView {
    /// The entries whose token trees stand for a region: each tree as it is, a group without
    /// visible delimiters with all that it holds if it lies within the region, and else what the
    /// region has of it.
    pub open spec fn cover(self, at: int, end: int) -> Seq<int>
        decreases end - at,
    {
        if at >= end || at >= self.trees.len() {
            seq![]
        } else {
            match self.trees[at] {
                TokenView::Open(len) => if len < end - at {
                    seq![at] + self.cover(at + 1 + len, end)
                } else {
                    self.cover(at + 1, end)
                },
                _ => seq![at] + self.cover(at + 1, end),
            }
        }
    }

    /// The positions from one up to another where a token can be seen.
    pub open spec fn visible(self, at: int, end: int) -> Seq<int>
        decreases end - at,
    {
        if at >= end || at >= self.trees.len() {
            seq![]
        } else if self.trees[at] is Open {
            self.visible(at + 1, end)
        } else {
            seq![at] + self.visible(at + 1, end)
        }
    }

    /// The positions of the tokens that can be seen in the token trees of these entries.
    pub open spec fn visible_in(self, entries: Seq<int>) -> Seq<int>
        decreases entries.len(),
    {
        if entries.len() == 0 {
            seq![]
        } else {
            (match self.trees[entries[0]] {
                TokenView::Open(len) => self.visible(entries[0] + 1, entries[0] + 1 + len),
                _ => seq![entries[0]],
            }) + self.visible_in(entries.drop_first())
        }
    }
}

proof fn lemma_visible_add(source: SourceView, at: int, mid: int, end: int)
    requires
        at <= mid <= end,
    ensures
        source.visible(at, end) == source.visible(at, mid) + source.visible(mid, end),
    decreases mid - at,
{
    if at < mid && at < source.trees.len() {
        lemma_visible_add(source, at + 1, mid, end);
        assert(source.visible(at, end) =~= source.visible(at, mid) + source.visible(mid, end));
    } else {
        assert(source.visible(at, end) =~= source.visible(at, mid) + source.visible(mid, end));
    }
}

/// What stands for a region has the tokens of the region: each once, in order, and no others.
pub proof fn cover_keeps_tokens(source: SourceView, at: int, end: int)
    requires
        0 <= at,
    ensures
        source.visible_in(source.cover(at, end)) == source.visible(at, end),
    decreases end - at,
{
    if at < end && at < source.trees.len() {
        let cover = source.cover(at, end);
        match source.trees[at] {
            TokenView::Open(len) => if len < end - at {
                let next = at + 1 + len;
                cover_keeps_tokens(source, next, end);
                assert(cover.drop_first() =~= source.cover(next, end));
                lemma_visible_add(source, at + 1, next, end);
            } else {
                cover_keeps_tokens(source, at + 1, end);
            },
            _ => {
                cover_keeps_tokens(source, at + 1, end);
                assert(cover.drop_first() =~= source.cover(at + 1, end));
            },
        }
    }
}

impl Source {
    /// The entries whose token trees stand for a region of the input, in order.
    pub fn cover(&self, region: Region) -> (entries: Vec<usize>)
        ensures
            entries@.map_values(|entry: usize| entry as int) == self@.cover(
                region.start as int,
                region.end as int,
            ),
    {
        let mut entries: Vec<usize> = Vec::new();
        let mut at: usize = region.start;
        let ghost all = self@.cover(region.start as int, region.end as int);
        proof {
            assert(entries@.map_values(|entry: usize| entry as int) + all =~= all);
        }
        while at < region.end && at < self.trees.len()
            invariant
                all == self@.cover(region.start as int, region.end as int),
                all == entries@.map_values(|entry: usize| entry as int) + self@.cover(
                    at as int,
                    region.end as int,
                ),
            decreases region.end - at,
        {
            let ghost before = entries@.map_values(|entry: usize| entry as int);
            match &self.trees[at] {
                Token::Open(len) => if *len < region.end - at {
                    entries.push(at);
                    proof {
                        let rest = self@.cover(at + 1 + *len, region.end as int);
                        assert(entries@.map_values(|entry: usize| entry as int) =~= before.push(
                            at as int,
                        ));
                        assert(before + (seq![at as int] + rest) =~= before.push(at as int) + rest);
                    }
                    at = at + 1 + *len;
                } else {
                    at = at + 1;
                },
                _ => {
                    entries.push(at);
                    proof {
                        let rest = self@.cover(at + 1, region.end as int);
                        assert(entries@.map_values(|entry: usize| entry as int) =~= before.push(
                            at as int,
                        ));
                        assert(before + (seq![at as int] + rest) =~= before.push(at as int) + rest);
                    }
                    at = at + 1;
                },
            }
        }
        proof {
            assert(entries@.map_values(|entry: usize| entry as int) + Seq::<int>::empty()
                =~= entries@.map_values(|entry: usize| entry as int));
        }
        entries
    }
}

} // verus!
