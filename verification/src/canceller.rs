//! Cancelling an arm by its label.

use vstd::prelude::*;

verus! {

/// The type that provides `.cancel()` for an arm with a label. It borrows the flags of that arm
/// and the count of arms that have finished.
pub struct Canceller<'a> {
    /// Set once the arm has been cancelled.
    pub cancelled: &'a mut bool,
    /// Set once the arm has finished or has been cancelled. Only arms that the join waits for
    /// have this flag.
    pub finished: Option<&'a mut bool>,
    /// How many of the arms that the join waits for have finished or have been cancelled.
    pub definitely_count: &'a mut usize,
}

/// The finished flag after a cancellation.
pub open spec fn finished_after_cancel(finished: Option<bool>) -> Option<bool> {
    match finished {
        Some(_) => Some(true),
        None => None,
    }
}

/// The count after a cancellation: one more if the arm is waited for and had not finished.
pub open spec fn count_after_cancel(finished: Option<bool>, count: usize) -> usize {
    if finished == Some(false) {
        count.wrapping_add(1)
    } else {
        count
    }
}

impl<'a> Canceller<'a> {
    /// What the finished flag holds, if there is one.
    pub open spec fn finished_flag(self) -> Option<bool> {
        match self.finished {
            Some(flag) => Some(*flag),
            None => None,
        }
    }

    /// Cancels the arm. It won't be polled again, and the join drops it promptly, though not
    /// here.
    pub fn cancel(&mut self)
        ensures
            *final(self).cancelled,
            final(self).finished_flag() == finished_after_cancel(old(self).finished_flag()),
            *final(self).definitely_count == count_after_cancel(
                old(self).finished_flag(),
                *old(self).definitely_count,
            ),
            old(self).finished_flag() == Some(false) ==> *final(self).definitely_count == old(
                self,
            ).definitely_count.wrapping_add(1) && final(self).finished_flag() == Some(true),
            old(self).finished_flag() != Some(false) ==> *final(self).definitely_count == *old(
                self,
            ).definitely_count && final(self).finished_flag() == old(self).finished_flag(),
            *final(final(self).cancelled) == *final(old(self).cancelled),
            *final(final(self).definitely_count) == *final(old(self).definitely_count),
            old(self).finished is Some ==> *final(final(self).finished->0) == *final(
                old(self).finished->0
            ),
    {
        *self.cancelled = true;
        if let Some(finished) = self.finished.as_mut() {
            let already_finished: bool = **finished;
            **finished = true;
            if !already_finished {
                *self.definitely_count = self.definitely_count.wrapping_add(1);
            }
        }
    }

    /// How a canceller is shown when debugging.
    pub fn fmt(&self) -> (text: String)
        ensures
            text@ == "Canceller { .. }"@,
    {
        "Canceller { .. }".to_string()
    }
}

/// The canceller that arm bodies see. It also gives access to the future or the stream of its arm.
pub struct CancellerMut<'a, T> {
    pub canceller: Canceller<'a>,
    /// The future or the stream, or `None` once the arm has finished or has been cancelled.
    pub labeled_cell: &'a mut Option<T>,
}

impl<'a, T> CancellerMut<'a, T> {
    /// Cancels the arm. It won't be polled again, and the join drops it promptly, though not
    /// here.
    pub fn cancel(&mut self)
        ensures
            *final(self).canceller.cancelled,
            final(self).canceller.finished_flag() == finished_after_cancel(
                old(self).canceller.finished_flag(),
            ),
            *final(self).canceller.definitely_count == count_after_cancel(
                old(self).canceller.finished_flag(),
                *old(self).canceller.definitely_count,
            ),
            old(self).canceller.finished_flag() == Some(false) ==> *final(
                self
            ).canceller.definitely_count == old(self).canceller.definitely_count.wrapping_add(1)
                && final(self).canceller.finished_flag() == Some(true),
            old(self).canceller.finished_flag() != Some(false) ==> *final(
                self
            ).canceller.definitely_count == *old(self).canceller.definitely_count
                && final(self).canceller.finished_flag() == old(self).canceller.finished_flag(),
            *final(final(self).canceller.cancelled) == *final(old(self).canceller.cancelled),
            *final(final(self).canceller.definitely_count) == *final(
                old(self).canceller.definitely_count
            ),
            old(self).canceller.finished is Some ==> *final(final(self).canceller.finished->0)
                == *final(old(self).canceller.finished->0),
            final(self).labeled_cell == old(self).labeled_cell,
    {
        self.canceller.cancel();
    }

    /// A reference to the future or the stream of the arm, or `None` if the arm has finished or
    /// has been cancelled.
    pub fn as_pin_mut(&mut self) -> (arm: Option<&mut T>)
        ensures
            (match *old(self).labeled_cell {
                Some(value) => {
                    &&& arm is Some
                    &&& *(arm->0) == value
                    &&& *final(self).labeled_cell == Some(*final(arm->0))
                },
                None => arm is None && *final(self).labeled_cell is None,
            }),
            final(self).canceller == old(self).canceller,
            *final(final(self).labeled_cell) == *final(old(self).labeled_cell),
    {
        self.labeled_cell.as_mut()
    }

    /// Runs `f` with a reference to the future or the stream of the arm, for as long as `f` runs.
    /// If the arm has finished or has been cancelled, `f` gets `None` but still runs.
    pub fn with_pin_mut<F, U>(&mut self, f: F) -> (result: U) where F: FnOnce(Option<&mut T>) -> U
        requires
            forall|arg: Option<&mut T>|
                (match *old(self).labeled_cell {
                    Some(value) => arg is Some && *(arg->0) == value,
                    None => arg is None,
                }) ==> #[trigger] f.requires((arg,)),
        ensures
            exists|arg: Option<&mut T>|
                {
                    &&& #[trigger] f.ensures((arg,), result)
                    &&& match *old(self).labeled_cell {
                        Some(value) => {
                            &&& arg is Some
                            &&& *(arg->0) == value
                            &&& *final(self).labeled_cell == Some(*final(arg->0))
                        },
                        None => arg is None && *final(self).labeled_cell is None,
                    }
                },
            final(self).canceller == old(self).canceller,
            *final(final(self).labeled_cell) == *final(old(self).labeled_cell),
    {
        f(self.labeled_cell.as_mut())
    }

    /// Like [`with_pin_mut`][Self::with_pin_mut], for a future or a stream that may be moved.
    pub fn with_mut<F, U>(&mut self, f: F) -> (result: U) where F: FnOnce(Option<&mut T>) -> U
        requires
            forall|arg: Option<&mut T>|
                (match *old(self).labeled_cell {
                    Some(value) => arg is Some && *(arg->0) == value,
                    None => arg is None,
                }) ==> #[trigger] f.requires((arg,)),
        ensures
            exists|arg: Option<&mut T>|
                {
                    &&& #[trigger] f.ensures((arg,), result)
                    &&& match *old(self).labeled_cell {
                        Some(value) => {
                            &&& arg is Some
                            &&& *(arg->0) == value
                            &&& *final(self).labeled_cell == Some(*final(arg->0))
                        },
                        None => arg is None && *final(self).labeled_cell is None,
                    }
                },
            final(self).canceller == old(self).canceller,
            *final(final(self).labeled_cell) == *final(old(self).labeled_cell),
    {
        f(self.labeled_cell.as_mut())
    }

    /// How a canceller is shown when debugging.
    pub fn fmt(&self) -> (text: String)
        ensures
            text@ == "CancellerMut { .. }"@,
    {
        "CancellerMut { .. }".to_string()
    }
}

/// A canceller of the arm with these flags.
pub fn new_canceller<'a>(
    cancelled: &'a mut bool,
    finished: Option<&'a mut bool>,
    definitely_count: &'a mut usize,
) -> (canceller: Canceller<'a>)
    ensures
        *canceller.cancelled == *old(cancelled),
        *final(canceller.cancelled) == *final(cancelled),
        canceller.finished == finished,
        *canceller.definitely_count == *old(definitely_count),
        *final(canceller.definitely_count) == *final(definitely_count),
{
    Canceller { cancelled, finished, definitely_count }
}

/// A canceller of the arm with these flags that also gives access to its future or stream.
pub fn new_canceller_mut<'a, T>(
    cancelled: &'a mut bool,
    finished: Option<&'a mut bool>,
    definitely_count: &'a mut usize,
    labeled_cell: &'a mut Option<T>,
) -> (canceller: CancellerMut<'a, T>)
    ensures
        *canceller.canceller.cancelled == *old(cancelled),
        *final(canceller.canceller.cancelled) == *final(cancelled),
        canceller.canceller.finished == finished,
        *canceller.canceller.definitely_count == *old(definitely_count),
        *final(canceller.canceller.definitely_count) == *final(definitely_count),
        *canceller.labeled_cell == *old(labeled_cell),
        *final(canceller.labeled_cell) == *final(labeled_cell),
{
    CancellerMut { canceller: Canceller { cancelled, finished, definitely_count }, labeled_cell }
}

} // verus!
