//! What a future or a stream answers when it is polled.

use vstd::prelude::*;

verus! {

/// The answer to one poll.
#[derive(Debug, PartialEq, Eq)]
pub enum Poll<T> {
    /// The value is there.
    Ready(T),
    /// Nothing yet. A wakeup has been registered.
    Pending,
}

/// Asks once and is done, whatever the answer. It holds the answer that the polled future gave,
/// and never makes its own caller wait.
pub struct PollOnce<T>(pub Poll<T>);

impl<T> PollOnce<T> {
    /// The answer of the inner future, at once.
    pub fn poll(self) -> (answer: Poll<Poll<T>>)
        ensures
            answer == Poll::Ready(self.0),
    {
        Poll::Ready(self.0)
    }
}

/// Like [`PollOnce`], for a stream: the answer is an item, the end of the stream, or neither.
pub struct PollNextOnce<T>(pub Poll<Option<T>>);

impl<T> PollNextOnce<T> {
    /// The answer of the inner stream, at once.
    pub fn poll(self) -> (answer: Poll<Poll<Option<T>>>)
        ensures
            answer == Poll::Ready(self.0),
    {
        Poll::Ready(self.0)
    }
}

} // verus!
