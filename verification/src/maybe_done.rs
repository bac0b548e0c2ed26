//! A future or a stream that is dropped as soon as it is over.

use vstd::prelude::*;

use crate::poll::Poll;

verus! {

/// A future, then its mapped output, then nothing.
#[derive(Debug)]
pub enum MaybeDone<Fut, T> {
    /// The future, which has not finished.
    Future(Fut),
    /// The output, which has not been taken.
    Done(T),
    /// Nothing: the output was taken, or the future was cancelled.
    Gone,
}

impl<Fut, T> MaybeDone<Fut, T> {
    /// Whether the future is over.
    pub fn is_finished(&self) -> (yes: bool)
        ensures
            yes == !(self is Future),
    {
        !matches!(self, MaybeDone::Future(_))
    }

    /// Drops the future if it is not over. An output that is there stays.
    pub fn cancel_if_not_finished(&mut self)
        ensures
            *final(self) == (if *old(self) is Future {
                MaybeDone::Gone
            } else {
                *old(self)
            }),
    {
        if !self.is_finished() {
            *self = MaybeDone::Gone;
        }
    }

    /// Takes the output, if it is there.
    pub fn take_output(&mut self) -> (output: Option<T>)
        ensures
            match *old(self) {
                MaybeDone::Done(value) => output == Some(value) && *final(self) == MaybeDone::<
                    Fut,
                    T,
                >::Gone,
                _ => output is None && *final(self) == *old(self),
            },
    {
        match self {
            MaybeDone::Done(_) => {},
            _ => {
                return None;
            },
        }
        let mut taken: MaybeDone<Fut, T> = MaybeDone::Gone;
        core::mem::swap(&mut taken, self);
        match taken {
            MaybeDone::Done(output) => Some(output),
            _ => None,
        }
    }

    /// Takes in the answer that the future gave when it was polled. If it has finished, its
    /// output is mapped and kept, and the future is dropped.
    pub fn poll_map<O, F>(&mut self, answer: Poll<O>, map: F) -> (done: Poll<()>) where
        F: FnOnce(O) -> T,

        requires
            *old(self) is Future,
            answer matches Poll::Ready(output) ==> map.requires((output,)),
        ensures
            match answer {
                Poll::Ready(output) => {
                    &&& done == Poll::Ready(())
                    &&& *final(self) is Done
                    &&& map.ensures((output,), (*final(self))->Done_0)
                },
                Poll::Pending => done == Poll::<()>::Pending && *final(self) == *old(self),
            },
    {
        match answer {
            Poll::Ready(output) => {
                *self = MaybeDone::Done(map(output));
                Poll::Ready(())
            },
            Poll::Pending => Poll::Pending,
        }
    }
}

/// A stream, then nothing.
#[derive(Debug)]
pub enum MaybeDoneStream<S> {
    /// The stream, which has not ended.
    Stream(S),
    /// Nothing: the stream has ended or was cancelled.
    Gone,
}

/// What to do with the answer of a stream.
#[derive(Debug)]
pub enum ForEach<I> {
    /// Hand the item to the caller, then poll the stream again.
    Item(I),
    /// Stop, with this answer.
    Stop(Poll<()>),
}

/// What to do with an answer of a stream.
pub open spec fn for_each_answer<I>(answer: Poll<Option<I>>) -> ForEach<I> {
    match answer {
        Poll::Ready(Some(item)) => ForEach::Item(item),
        Poll::Ready(None) => ForEach::Stop(Poll::Ready(())),
        Poll::Pending => ForEach::Stop(Poll::Pending),
    }
}

/// A stream once it has given the answer: gone if that was its end.
pub open spec fn after_answer<S, I>(
    stream: MaybeDoneStream<S>,
    answer: Poll<Option<I>>,
) -> MaybeDoneStream<S> {
    if answer == Poll::Ready(None::<I>) {
        MaybeDoneStream::Gone
    } else {
        stream
    }
}

/// The items that are handed to the caller when the stream gives these answers, up to the first
/// that is not an item.
pub open spec fn items_handed_on<I>(answers: Seq<Poll<Option<I>>>) -> Seq<I>
    decreases answers.len(),
{
    if answers.len() == 0 {
        seq![]
    } else {
        match for_each_answer(answers[0]) {
            ForEach::Item(item) => seq![item] + items_handed_on(answers.drop_first()),
            ForEach::Stop(_) => seq![],
        }
    }
}

impl<S> MaybeDoneStream<S> {
    /// Whether the stream is over.
    pub fn is_finished(&self) -> (yes: bool)
        ensures
            yes == !(self is Stream),
    {
        !matches!(self, MaybeDoneStream::Stream(_))
    }

    /// Drops the stream if it is not over.
    pub fn cancel_if_not_finished(&mut self)
        ensures
            *final(self) is Gone,
    {
        if !self.is_finished() {
            *self = MaybeDoneStream::Gone;
        }
    }

    /// Takes in one answer of the stream: an item is handed on and the stream is to be polled
    /// again, until it answers that it has ended, and is dropped, or that it has nothing yet.
    pub fn accept<I>(&mut self, answer: Poll<Option<I>>) -> (next: ForEach<I>)
        requires
            *old(self) is Stream,
        ensures
            next == for_each_answer(answer),
            *final(self) == after_answer(*old(self), answer),
            match answer {
                Poll::Ready(Some(item)) => next == ForEach::Item(item) && *final(self)
                    == *old(self),
                Poll::Ready(None) => next == ForEach::<I>::Stop(Poll::Ready(())) && *final(
                    self
                ) is Gone,
                Poll::Pending => next == ForEach::<I>::Stop(Poll::Pending) && *final(self)
                    == *old(self),
            },
    {
        match answer {
            Poll::Pending => ForEach::Stop(Poll::Pending),
            Poll::Ready(Some(item)) => ForEach::Item(item),
            Poll::Ready(None) => {
                *self = MaybeDoneStream::Gone;
                ForEach::Stop(Poll::Ready(()))
            },
        }
    }

    /// Polls the stream for as long as it gives items. `answers` are what the stream answers to
    /// one poll after the other; those after the first that is not an item are not asked for.
    /// The result is the items, in order, and the answer to the caller: ready if the stream has
    /// ended.
    pub fn poll_for_each<I>(&mut self, answers: Vec<Poll<Option<I>>>) -> (result: (
        Vec<I>,
        Poll<()>,
    ))
        requires
            *old(self) is Stream,
            exists|k: int| 0 <= k < answers@.len() && for_each_answer(#[trigger] answers@[k]) is Stop,
        ensures
            result.0@ == items_handed_on(answers@),
            result.0@.len() < answers@.len(),
            ForEach::<I>::Stop(result.1) == for_each_answer(
                answers@[items_handed_on(answers@).len() as int],
            ),
            *final(self) == after_answer(
                *old(self),
                answers@[items_handed_on(answers@).len() as int],
            ),
            forall|k: int|
                0 <= k < result.0@.len() ==> answers@[k] == Poll::Ready(
                    Some(#[trigger] result.0@[k]),
                ),
            result.1 == Poll::Ready(()) <==> answers@[result.0@.len() as int] == Poll::Ready(
                None::<I>,
            ),
            result.1 == Poll::<()>::Pending <==> answers@[result.0@.len() as int] is Pending,
            *final(self) is Gone <==> result.1 == Poll::Ready(()),
            !(*final(self) is Gone) ==> *final(self) == *old(self),
    {
        let mut items: Vec<I> = Vec::new();
        let mut rest: Vec<Poll<Option<I>>> = answers;
        let ghost all = answers@;
        proof {
            assert(all.skip(0) =~= all);
        }
        loop
            invariant
                all == answers@,
                *self is Stream,
                *self == *old(self),
                items@.len() < all.len(),
                rest@ == all.skip(items@.len() as int),
                forall|k: int|
                    0 <= k < items@.len() ==> all[k] == Poll::Ready(Some(#[trigger] items@[k])),
                items_handed_on(all) == items@ + items_handed_on(rest@),
                exists|k: int|
                    0 <= k < rest@.len() && for_each_answer(#[trigger] rest@[k]) is Stop,
            decreases rest@.len(),
        {
            let ghost before = rest@;
            let answer = rest.remove(0);
            proof {
                assert(rest@ =~= before.drop_first());
                assert(before[0] == all[items@.len() as int]);
            }
            match self.accept(answer) {
                ForEach::Item(item) => {
                    proof {
                        let k = choose|k: int|
                            0 <= k < before.len() && for_each_answer(#[trigger] before[k]) is Stop;
                        assert(rest@[k - 1] == before[k]);
                        assert(rest@ =~= all.skip((items@.len() + 1) as int));
                        assert(items@ + (seq![item] + items_handed_on(rest@)) =~= items@.push(item)
                            + items_handed_on(rest@));
                    }
                    items.push(item);
                },
                ForEach::Stop(done) => {
                    proof {
                        assert(items@ + Seq::<I>::empty() =~= items@);
                    }
                    return (items, done);
                },
            }
        }
    }
}

/// The items that a stream yields before its end, when it gives these answers to one poll after
/// the other.
pub open spec fn yielded<I>(answers: Seq<Poll<Option<I>>>) -> Seq<I>
    decreases answers.len(),
{
    if answers.len() == 0 {
        seq![]
    } else {
        match answers[0] {
            Poll::Ready(Some(item)) => seq![item] + yielded(answers.drop_first()),
            Poll::Ready(None) => seq![],
            Poll::Pending => yielded(answers.drop_first()),
        }
    }
}

/// How many of these answers one call of `poll_for_each` asks for.
pub open spec fn asked_for<I>(answers: Seq<Poll<Option<I>>>) -> int {
    items_handed_on(answers).len() as int + 1
}

/// The items that are handed to the caller by one call of `poll_for_each` after the other, until
/// one returns that the stream has ended.
pub open spec fn handed_on_by_calls<I>(answers: Seq<Poll<Option<I>>>) -> Seq<I>
    decreases answers.len(),
{
    let n = asked_for(answers);
    if n <= answers.len() && answers[n - 1] is Pending {
        items_handed_on(answers) + handed_on_by_calls(answers.skip(n))
    } else {
        items_handed_on(answers)
    }
}

/// The stream after these calls.
pub open spec fn after_calls<S, I>(
    stream: MaybeDoneStream<S>,
    answers: Seq<Poll<Option<I>>>,
) -> MaybeDoneStream<S>
    decreases answers.len(),
{
    let n = asked_for(answers);
    if n > answers.len() {
        stream
    } else if answers[n - 1] is Pending {
        after_calls(after_answer(stream, answers[n - 1]), answers.skip(n))
    } else {
        after_answer(stream, answers[n - 1])
    }
}

proof fn lemma_handed_on<I>(answers: Seq<Poll<Option<I>>>)
    ensures
        ({
            let n = asked_for(answers);
            &&& n <= answers.len() + 1
            &&& forall|k: int| 0 <= k < n - 1 ==> !(#[trigger] answers[k] is Pending)
                && answers[k] != Poll::Ready(None::<I>)
            &&& n <= answers.len() ==> for_each_answer(answers[n - 1]) is Stop
            &&& n <= answers.len() && answers[n - 1] is Pending ==> yielded(answers)
                == items_handed_on(answers) + yielded(answers.skip(n))
            &&& !(n <= answers.len() && answers[n - 1] is Pending) ==> yielded(answers)
                == items_handed_on(answers)
        }),
    decreases answers.len(),
{
    if answers.len() > 0 {
        if let ForEach::Item(item) = for_each_answer(answers[0]) {
            let rest = answers.drop_first();
            lemma_handed_on(rest);
            let m = asked_for(rest);
            assert(asked_for(answers) == m + 1);
            assert forall|k: int| 0 <= k < m implies !(#[trigger] answers[k] is Pending)
                && answers[k] != Poll::Ready(None::<I>) by {
                if k > 0 {
                    assert(answers[k] == rest[k - 1]);
                }
            }
            if m <= rest.len() {
                assert(answers[m] == rest[m - 1]);
                assert(answers.skip(m + 1) =~= rest.skip(m));
                assert(seq![item] + (items_handed_on(rest) + yielded(rest.skip(m))) =~= seq![item]
                    + items_handed_on(rest) + yielded(rest.skip(m)));
            }
        } else {
            assert(answers.skip(1) =~= answers.drop_first());
            assert(Seq::<I>::empty() + yielded(answers.skip(1)) =~= yielded(answers.skip(1)));
        }
    }
}

/// However often `poll_for_each` has to be called, the items that it hands on are those that the
/// stream yields before its end: none is lost, none comes twice, and they come in order. The
/// stream is there until it has ended, and gone from then on.
pub proof fn calls_hand_on_what_is_yielded<S, I>(
    stream: MaybeDoneStream<S>,
    answers: Seq<Poll<Option<I>>>,
)
    requires
        stream is Stream,
    ensures
        handed_on_by_calls(answers) == yielded(answers),
        after_calls(stream, answers) is Gone <==> answers.contains(Poll::Ready(None::<I>)),
        !(after_calls(stream, answers) is Gone) ==> after_calls(stream, answers) == stream,
    decreases answers.len(),
{
    let n = asked_for(answers);
    let end = Poll::Ready(None::<I>);
    lemma_handed_on(answers);
    if n <= answers.len() && answers[n - 1] is Pending {
        let rest = answers.skip(n);
        calls_hand_on_what_is_yielded(stream, rest);
        if answers.contains(end) {
            let k = choose|k: int| 0 <= k < answers.len() && answers[k] == end;
            assert(k >= n);
            assert(rest[k - n] == end);
        }
        if rest.contains(end) {
            let k = choose|k: int| 0 <= k < rest.len() && rest[k] == end;
            assert(answers[k + n] == end);
        }
    } else if n > answers.len() {
        assert(!answers.contains(end));
    } else {
        assert(answers[n - 1] == end);
    }
}

} // verus!
