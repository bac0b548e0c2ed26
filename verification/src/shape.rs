//! What kind of arm an arm is. Both the expansion and the state machine go by this alone.

use vstd::prelude::*;

verus! {

/// What stands in an arm.
#[derive(Clone, Copy, Debug, PartialEq, Eq, Structural)]
pub enum Kind {
    /// `<future>`
    Future,
    /// `<pattern> = <future> => <body>`
    FutureBody,
    /// `<pattern> in <stream> => <body>`
    Stream,
    /// `<pattern> in <stream> => <body> finally <expression>`
    StreamFinally,
}

/// How an arm that finishes counts towards the end of the join.
#[derive(Clone, Copy, Debug, PartialEq, Eq, Structural)]
pub enum Bump {
    /// A "maybe" arm is not waited for.
    Never,
    /// An arm that nobody can cancel counts when it finishes.
    Always,
    /// An arm with a label counts when it finishes or is cancelled, whichever comes first.
    Once,
}

/// The form of an arm.
#[derive(Clone, Copy, Debug, PartialEq, Eq, Structural)]
pub struct ArmShape {
    pub kind: Kind,
    /// Whether the join ends without waiting for this arm.
    pub is_maybe: bool,
    /// Whether the arm has a label, and so can be cancelled by name.
    pub labeled: bool,
}

impl ArmShape {
    pub open spec fn spec_bump(self) -> Bump {
        if self.is_maybe {
            Bump::Never
        } else if self.labeled {
            Bump::Once
        } else {
            Bump::Always
        }
    }

    pub open spec fn spec_is_stream(self) -> bool {
        self.kind == Kind::Stream || self.kind == Kind::StreamFinally
    }

    pub open spec fn spec_has_body(self) -> bool {
        self.kind != Kind::Future
    }

    pub open spec fn spec_has_finally(self) -> bool {
        self.kind == Kind::StreamFinally
    }

    pub open spec fn spec_has_value(self) -> bool {
        self.kind != Kind::Stream
    }

    pub open spec fn spec_cancellable(self) -> bool {
        self.is_maybe || self.labeled
    }

    /// How the arm counts when it finishes.
    pub fn bump(&self) -> (bump: Bump)
        ensures
            bump == self.spec_bump(),
    {
        if self.is_maybe {
            Bump::Never
        } else if self.labeled {
            Bump::Once
        } else {
            Bump::Always
        }
    }

    /// Whether the arm drives a stream.
    pub fn is_stream(&self) -> (yes: bool)
        ensures
            yes == self.spec_is_stream(),
    {
        matches!(self.kind, Kind::Stream | Kind::StreamFinally)
    }

    /// Whether the arm has a `=>` body.
    pub fn has_body(&self) -> (yes: bool)
        ensures
            yes == self.spec_has_body(),
    {
        !matches!(self.kind, Kind::Future)
    }

    /// Whether the arm has a `finally` expression.
    pub fn has_finally(&self) -> (yes: bool)
        ensures
            yes == self.spec_has_finally(),
    {
        matches!(self.kind, Kind::StreamFinally)
    }

    /// Whether the arm has a value of its own. A stream without `finally` has none.
    pub fn has_value(&self) -> (yes: bool)
        ensures
            yes == self.spec_has_value(),
    {
        !matches!(self.kind, Kind::Stream)
    }

    /// Whether the arm can end without its value, so that the value comes in an `Option`.
    pub fn cancellable(&self) -> (yes: bool)
        ensures
            yes == self.spec_cancellable(),
    {
        self.is_maybe || self.labeled
    }
}

} // verus!
