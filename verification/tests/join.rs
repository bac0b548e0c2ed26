//! Joins that run to their end, driven by the state machine.

use std::cell::{Cell, RefCell};
use std::future::{pending, poll_fn, ready, Future};
use std::hash::Hash;
use std::pin::Pin;
use std::rc::Rc;
use std::task::{Context, Poll, Waker};

use futures::stream::{self, FuturesUnordered};
use futures::{Stream, StreamExt};
use join_me_maybe_core::canceller::new_canceller_mut;
use join_me_maybe_core::driver::{Action, BodyPoll, Join, Output};
use join_me_maybe_core::poll;
use join_me_maybe_core::shape::{ArmShape, Kind};
use tokio::time::{sleep, Duration};
use tokio_stream::StreamMap;

#[derive(Debug, PartialEq, Eq)]
enum Val {
    Unit,
    Int(i64),
    Text(&'static str),
    Pair(i64, i64),
}

impl From<()> for Val {
    fn from(_: ()) -> Val {
        Val::Unit
    }
}

impl From<i64> for Val {
    fn from(n: i64) -> Val {
        Val::Int(n)
    }
}

impl From<&'static str> for Val {
    fn from(text: &'static str) -> Val {
        Val::Text(text)
    }
}

impl Val {
    fn number(&self) -> i64 {
        match self {
            Val::Int(n) => *n,
            other => panic!("not a number: {:?}", other),
        }
    }
}

fn unit() -> Output<Val> {
    Output::Unit
}

fn value(v: impl Into<Val>) -> Output<Val> {
    Output::Value(v.into())
}

fn some(v: impl Into<Val>) -> Output<Val> {
    Output::Maybe(Some(v.into()))
}

fn none() -> Output<Val> {
    Output::Maybe(None)
}

/// A body ends with its value, or returns from the enclosing function.
type BodyFuture<'a> = Pin<Box<dyn Future<Output = Result<Val, Val>> + 'a>>;

enum Scrutinee<'a> {
    Future(Pin<Box<dyn Future<Output = Val> + 'a>>),
    Stream(Pin<Box<dyn Stream<Item = Val> + 'a>>),
}

struct Arm<'a> {
    scrutinee: Option<Scrutinee<'a>>,
    body: Option<Box<dyn FnMut(Val) -> BodyFuture<'a> + 'a>>,
    finally: Option<Box<dyn FnMut() -> BodyFuture<'a> + 'a>>,
    is_maybe: bool,
    labeled: bool,
}

fn future<'a, T: Into<Val>>(f: impl Future<Output = T> + 'a) -> Arm<'a> {
    Arm {
        scrutinee: Some(Scrutinee::Future(Box::pin(async { f.await.into() }))),
        body: None,
        finally: None,
        is_maybe: false,
        labeled: false,
    }
}

fn items<'a, T: Into<Val>>(s: impl Stream<Item = T> + 'a) -> Arm<'a> {
    Arm {
        scrutinee: Some(Scrutinee::Stream(Box::pin(s.map(|item| item.into())))),
        body: None,
        finally: None,
        is_maybe: false,
        labeled: false,
    }
}

impl<'a> Arm<'a> {
    fn maybe(mut self) -> Arm<'a> {
        self.is_maybe = true;
        self
    }

    fn label(mut self) -> Arm<'a> {
        self.labeled = true;
        self
    }

    fn then_run(mut self, body: impl FnMut(Val) -> BodyFuture<'a> + 'a) -> Arm<'a> {
        self.body = Some(Box::new(body));
        self
    }

    fn body<T: Into<Val> + 'a>(self, mut body: impl FnMut(Val) -> T + 'a) -> Arm<'a> {
        self.then_run(move |item| {
            let value = body(item).into();
            Box::pin(ready(Ok(value)))
        })
    }

    fn finally_run(mut self, finally: impl FnMut() -> BodyFuture<'a> + 'a) -> Arm<'a> {
        self.finally = Some(Box::new(finally));
        self
    }

    fn finally<T: Into<Val> + 'a>(self, mut finally: impl FnMut() -> T + 'a) -> Arm<'a> {
        self.finally_run(move || {
            let value = finally().into();
            Box::pin(ready(Ok(value)))
        })
    }

    fn shape(&self) -> ArmShape {
        let kind = match &self.scrutinee {
            Some(Scrutinee::Stream(_)) if self.finally.is_some() => Kind::StreamFinally,
            Some(Scrutinee::Stream(_)) => Kind::Stream,
            _ if self.body.is_some() => Kind::FutureBody,
            _ => Kind::Future,
        };
        ArmShape { kind, is_maybe: self.is_maybe, labeled: self.labeled }
    }
}

/// What a label stands for before and while the join runs.
#[derive(Clone, Default)]
struct Labels(Rc<RefCell<Option<Join<Val>>>>);

impl Labels {
    fn cancel(&self, arm: usize) {
        self.0.borrow_mut().as_mut().unwrap().cancel(arm);
    }
}

fn answer<T>(poll: Poll<T>) -> poll::Poll<T> {
    match poll {
        Poll::Ready(value) => poll::Poll::Ready(value),
        Poll::Pending => poll::Poll::Pending,
    }
}

/// Runs a join. An error is what a body returned from the enclosing function.
async fn run<'a>(labels: Labels, mut arms: Vec<Arm<'a>>) -> Result<Vec<Output<Val>>, Val> {
    let shapes: Vec<ArmShape> = arms.iter().map(|arm| arm.shape()).collect();
    *labels.0.borrow_mut() = Some(Join::new(&shapes));
    let mut body: Option<BodyFuture<'a>> = None;
    let mut returned: Option<Val> = None;
    poll_fn(move |cx| loop {
        let action = labels.0.borrow_mut().as_mut().unwrap().step();
        match action {
            None => {}
            Some(Action::PollArm(i)) => {
                let ready = match arms[i].scrutinee.as_mut().unwrap() {
                    Scrutinee::Future(f) => {
                        let poll = f.as_mut().poll(cx);
                        labels.0.borrow_mut().as_mut().unwrap().future_polled(answer(poll))
                    }
                    Scrutinee::Stream(s) => {
                        let poll = s.as_mut().poll_next(cx);
                        labels.0.borrow_mut().as_mut().unwrap().stream_polled(answer(poll))
                    }
                };
                if ready {
                    arms[i].scrutinee = None;
                }
            }
            Some(Action::DropArm(i)) => arms[i].scrutinee = None,
            Some(Action::StartBody(i, item)) => {
                body = Some((arms[i].body.as_mut().unwrap())(item));
            }
            Some(Action::StartFinally(i)) => {
                body = Some((arms[i].finally.as_mut().unwrap())());
            }
            Some(Action::PollBody(_)) => {
                let poll = match body.as_mut().unwrap().as_mut().poll(cx) {
                    Poll::Ready(Ok(value)) => {
                        body = None;
                        BodyPoll::Completed(value)
                    }
                    Poll::Ready(Err(value)) => {
                        returned = Some(value);
                        BodyPoll::Returned
                    }
                    Poll::Pending => BodyPoll::Pending,
                };
                labels.0.borrow_mut().as_mut().unwrap().body_polled(poll);
            }
            Some(Action::DropBody(_)) => body = None,
            Some(Action::Yield) => return Poll::Pending,
            Some(Action::Finish) => {
                let join = labels.0.borrow_mut().take().unwrap();
                return Poll::Ready(Ok(join.outputs()));
            }
            Some(Action::Return) => return Poll::Ready(Err(returned.take().unwrap())),
        }
    })
    .await
}

fn block_on<T>(f: impl Future<Output = T>) -> T {
    tokio::runtime::Builder::new_current_thread().enable_time().build().unwrap().block_on(f)
}

fn run_to_end(labels: Labels, arms: Vec<Arm<'_>>) -> Vec<Output<Val>> {
    block_on(run(labels, arms)).expect("no body returns")
}

async fn nearly_forever() {
    sleep(Duration::from_secs(1_000_000)).await
}

#[test]
fn test_maybe() {
    let ret = run_to_end(
        Labels::default(),
        vec![
            future(ready(1)).maybe(),
            future(ready(2)),
            future(ready(3)),
            future(ready(4)).maybe(),
        ],
    );
    assert_eq!(ret, vec![some(1), value(2), value(3), none()]);
}

#[test]
fn test_cancel() {
    let labels = Labels::default();
    let (foo, bar) = (2, 3);
    let ret = run_to_end(
        labels.clone(),
        vec![
            future(ready(0)).maybe(),
            future(ready(1)),
            future(async {
                nearly_forever().await;
                2 // we'll never get here
            })
            .label(),
            future(async {
                nearly_forever().await;
                3 // we'll never get here
            })
            .label()
            .maybe(),
            future(async {
                labels.cancel(foo);
                4
            })
            .maybe(),
            future(async {
                labels.cancel(bar);
                5
            }),
            future(ready(6)).label().maybe(),
        ],
    );
    assert_eq!(ret, vec![some(0), value(1), none(), none(), some(4), value(5), none()]);
}

#[test]
fn test_early_exit() {
    let labels = Labels::default();
    let foo = 1;
    let ret = run_to_end(
        labels.clone(),
        vec![
            future(async {
                labels.cancel(foo);
                // Because of this yield, we'll never get to the return value in this arm.
                sleep(Duration::from_secs(0)).await;
                0
            })
            .maybe(),
            future(ready(1)).label(),
        ],
    );
    assert_eq!(ret, vec![none(), none()]);
}

#[test]
fn test_cancel_already_finished() {
    let labels = Labels::default();
    let foo = 0;
    let ret = run_to_end(
        labels.clone(),
        vec![
            future(ready(0)).label(),
            future(async {
                // `foo` will have already finished above by the time we try to cancel it here.
                labels.cancel(foo);
                1
            }),
            // Hypothetically if the count were off, this arm would be skipped.
            future(async { 2 }),
        ],
    );
    assert_eq!(ret, vec![some(0), value(1), value(2)]);
}

#[test]
fn test_cancel_self() {
    let labels = Labels::default();
    let foo = 0;
    let ret = run_to_end(
        labels.clone(),
        vec![
            future(async {
                // This arm is cancelling itself, but it's going to exit anyway.
                labels.cancel(foo);
                0
            })
            .label(),
            future(ready(1)),
        ],
    );
    assert_eq!(ret, vec![some(0), value(1)]);
}

#[test]
fn test_drop_promptly() {
    let mutex = tokio::sync::Mutex::new(());
    let labels = Labels::default();
    let foo = 0;
    let ret = run_to_end(
        labels.clone(),
        vec![
            future(async {
                // Polling order is deterministic, so this arm definitely gets the lock here.
                let _guard = mutex.lock().await;
                // This arm tries to sleep "forever" while holding the lock.
                nearly_forever().await;
            })
            .label(),
            future(async {
                // Take the lock from foo...by force!
                labels.cancel(foo);
                // If cancelling `foo` doesn't drop its future promptly, this will deadlock.
                _ = mutex.lock().await;
            }),
        ],
    );
    assert_eq!(ret, vec![none(), value(())]);
}

#[test]
fn test_nontrivial_futures() {
    let ret = run_to_end(
        Labels::default(),
        vec![
            future(async {
                sleep(Duration::from_millis(1)).await;
                1
            })
            .maybe(),
            future(async {
                sleep(Duration::from_millis(10)).await;
                2
            }),
        ],
    );
    assert_eq!(ret, vec![some(1), value(2)]);
}

#[test]
fn test_future_arms_with_bodies() {
    let counter = Cell::new(0);
    let bump = || counter.set(counter.get() + 1);
    let ret = run_to_end(
        Labels::default(),
        vec![
            future(ready(1))
                .body(|x| {
                    assert_eq!(x, Val::Int(1));
                    bump();
                    "hello"
                })
                .maybe(),
            future(ready(2)).body(|y| {
                bump();
                10 * y.number()
            }),
            future(ready(3)).body(|_| bump()),
            // This arm gets cancelled.
            future(ready(4)).body(|_| bump()).maybe(),
        ],
    );
    assert_eq!(ret, vec![some("hello"), value(20), value(()), none()]);
    assert_eq!(counter.get(), 3);
}

#[test]
fn test_stream_arms() {
    let elements1 = RefCell::new(Vec::new());
    let elements2 = RefCell::new(Vec::new());
    let counter = Cell::new(0);
    let ret = run_to_end(
        Labels::default(),
        vec![
            items(stream::iter(0..5)).body(|x| {
                elements1.borrow_mut().push(x.number());
                counter.set(counter.get() + 1);
            }),
            items(stream::iter(5..8)).body(|x| {
                elements2.borrow_mut().push(x.number());
                counter.set(counter.get() + 1);
            }),
            future(ready(())).body(|_| counter.set(counter.get() + 100)),
        ],
    );
    assert_eq!(elements1.into_inner(), [0, 1, 2, 3, 4]);
    assert_eq!(elements2.into_inner(), [5, 6, 7]);
    assert_eq!(counter.get(), 108);
    assert_eq!(ret, vec![unit(), unit(), value(())]);
}

struct ResumingStream<S> {
    stream: S,
    waker: Option<Waker>,
    ended: bool,
}

fn resuming<S>(stream: S) -> ResumingStream<S> {
    ResumingStream { stream, waker: None, ended: false }
}

impl<S> ResumingStream<S> {
    fn inner(&mut self) -> &mut S {
        if let Some(waker) = &self.waker {
            // Mutating the stream might mean it needs to be polled again.
            waker.wake_by_ref();
        }
        &mut self.stream
    }

    fn end(&mut self) {
        self.ended = true;
    }
}

impl<S: Stream + Unpin> Stream for ResumingStream<S> {
    type Item = S::Item;

    fn poll_next(mut self: Pin<&mut Self>, cx: &mut Context<'_>) -> Poll<Option<Self::Item>> {
        match Pin::new(&mut self.stream).poll_next(cx) {
            // Once `self.ended` is set, we can let the caller observe end-of-stream.
            Poll::Ready(None) if self.ended => Poll::Ready(None),
            // If not `self.ended`, refuse to allow the underlying stream to report that it's done.
            Poll::Pending | Poll::Ready(None) => {
                self.waker = Some(cx.waker().clone());
                Poll::Pending
            }
            Poll::Ready(Some(item)) => {
                self.waker = None;
                Poll::Ready(Some(item))
            }
        }
    }
}

/// The place of a stream that bodies can reach. The join polls what is in it.
struct Cellar<S>(Rc<RefCell<Option<S>>>);

impl<S: Stream + Unpin> Stream for Cellar<S> {
    type Item = S::Item;

    fn poll_next(self: Pin<&mut Self>, cx: &mut Context<'_>) -> Poll<Option<Self::Item>> {
        match self.0.borrow_mut().as_mut() {
            Some(stream) => Pin::new(stream).poll_next(cx),
            None => Poll::Ready(None),
        }
    }
}

impl<S> Drop for Cellar<S> {
    fn drop(&mut self) {
        *self.0.borrow_mut() = None;
    }
}

/// What a body does with the stream of a label.
fn with_label<S, U>(cell: &RefCell<Option<S>>, f: impl FnOnce(&mut S) -> U) -> U {
    let (mut cancelled, mut finished, mut count) = (false, false, 0);
    let mut cell = cell.borrow_mut();
    let mut label = new_canceller_mut(&mut cancelled, Some(&mut finished), &mut count, &mut cell);
    f(label.as_pin_mut().unwrap())
}

#[test]
fn test_canceller_mut_futuresunordered() {
    let inputs = stream::iter(0..5).then(|i: i64| async move {
        sleep(Duration::from_millis(1)).await;
        i
    });
    let outputs = RefCell::new(Vec::new());
    let unordered = Rc::new(RefCell::new(Some(resuming(FuturesUnordered::new()))));
    run_to_end(
        Labels::default(),
        vec![
            items(inputs)
                .body(|i| {
                    let i = i.number();
                    with_label(&unordered, |stream| {
                        let push: Pin<Box<dyn Future<Output = i64>>> = Box::pin(async move { i });
                        stream.inner().push(push);
                    });
                })
                .finally(|| with_label(&unordered, |stream| stream.end())),
            items(Cellar(unordered.clone())).body(|i| outputs.borrow_mut().push(i.number())).label(),
        ],
    );
    let mut outputs = outputs.into_inner();
    outputs.sort();
    assert_eq!(outputs, [0, 1, 2, 3, 4]);
}

// Similar to `ResumingStream` above, but more tailored to `StreamMap` specifically.
struct WellBehavedStreamMap<K, V> {
    map: StreamMap<K, V>,
    waker: Option<Waker>,
    drain: bool,
}

impl<K, V> WellBehavedStreamMap<K, V> {
    fn new() -> Self {
        Self { map: StreamMap::new(), waker: None, drain: false }
    }

    fn start_drain(&mut self) {
        self.drain = true;
    }
}

impl<K: Hash + Eq, V: Stream> WellBehavedStreamMap<K, V> {
    fn insert(&mut self, key: K, stream: V) {
        assert!(!self.drain, "already draining");
        self.map.insert(key, stream);
        if let Some(waker) = &self.waker {
            waker.wake_by_ref();
        }
    }
}

impl<K: Clone + Unpin, V: Stream + Unpin> Stream for WellBehavedStreamMap<K, V> {
    type Item = (K, V::Item);

    fn poll_next(mut self: Pin<&mut Self>, cx: &mut Context<'_>) -> Poll<Option<Self::Item>> {
        match Pin::new(&mut self.map).poll_next(cx) {
            // Once drain is set, we can let the caller observe end-of-stream.
            Poll::Ready(None) if self.drain => Poll::Ready(None),
            Poll::Pending | Poll::Ready(None) => {
                self.waker = Some(cx.waker().clone());
                Poll::Pending
            }
            Poll::Ready(Some(item)) => {
                self.waker = None;
                Poll::Ready(Some(item))
            }
        }
    }
}

impl From<(i64, i64)> for Val {
    fn from((k, v): (i64, i64)) -> Val {
        Val::Pair(k, v)
    }
}

#[test]
fn test_canceller_mut_streammap() {
    let inputs = stream::iter(0..5).then(|i: i64| async move {
        sleep(Duration::from_millis(1)).await;
        i
    });
    let outputs = RefCell::new(Vec::new());
    let stream_map = Rc::new(RefCell::new(Some(WellBehavedStreamMap::new())));
    run_to_end(
        Labels::default(),
        vec![
            items(inputs)
                .body(|i| {
                    let i = i.number();
                    with_label(&stream_map, |map| map.insert(i, stream::iter(vec![i; i as usize])));
                })
                .finally(|| with_label(&stream_map, |map| map.start_drain())),
            items(Cellar(stream_map.clone()))
                .body(|item| match item {
                    Val::Pair(_k, v) => outputs.borrow_mut().push(v),
                    other => panic!("not a pair: {:?}", other),
                })
                .label(),
        ],
    );
    let mut outputs = outputs.into_inner();
    outputs.sort();
    assert_eq!(outputs, [1, 2, 2, 3, 3, 3, 4, 4, 4, 4]);
}

#[test]
fn waits_for_all_futures() {
    let ret = run_to_end(
        Labels::default(),
        vec![
            future(ready(1)),
            future(async {
                sleep(Duration::from_millis(100)).await;
                2
            }),
        ],
    );
    assert_eq!(ret, vec![value(1), value(2)]);
}

#[test]
fn leaves_background_work_behind() {
    let ret = run_to_end(
        Labels::default(),
        vec![
            future(async {
                sleep(Duration::from_millis(100)).await;
                1
            }),
            future(async {
                sleep(Duration::from_millis(200)).await;
                2
            }),
            future(async {
                sleep(Duration::from_millis(10)).await;
                3
            })
            .maybe(),
            future(async {
                loop {
                    sleep(Duration::from_millis(10)).await;
                }
                #[allow(unreachable_code)]
                ()
            })
            .maybe(),
        ],
    );
    assert_eq!(ret, vec![value(1), value(2), some(3), none()]);
}

#[test]
fn cancelling_a_future_releases_its_lock() {
    let mutex = tokio::sync::Mutex::new(42);
    let labels = Labels::default();
    let foo = 0;
    let ret = run_to_end(
        labels.clone(),
        vec![
            future(async {
                let mut guard = mutex.lock().await;
                *guard += 1;
                nearly_forever().await;
            })
            .label(),
            future(async {
                sleep(Duration::from_millis(100)).await;
                if mutex.try_lock().is_err() {
                    labels.cancel(foo);
                }
                *mutex.lock().await
            }),
        ],
    );
    assert_eq!(ret, vec![none(), value(43)]);
}

#[test]
fn bodies_share_what_is_around_them() {
    let counter = Cell::new(0);
    let ret = run_to_end(
        Labels::default(),
        vec![
            future(ready(1)).body(|n| {
                counter.set(counter.get() + n.number());
                42
            }),
            future(async {
                sleep(Duration::from_millis(1)).await;
                1
            })
            .body(|m| counter.set(counter.get() + m.number())),
        ],
    );
    assert_eq!(counter.get(), 2);
    assert_eq!(ret, vec![value(42), value(())]);
}

#[test]
fn a_body_returns_from_the_enclosing_function() {
    let second_ran = Cell::new(false);
    let ret = block_on(run(
        Labels::default(),
        vec![
            future(ready(1)).then_run(|_| {
                Box::pin(async {
                    sleep(Duration::from_millis(1)).await;
                    Err(Val::Text("out"))
                })
            }),
            future(ready(2)).body(|_| second_ran.set(true)),
        ],
    ));
    assert_eq!(ret, Err(Val::Text("out")));
    assert!(!second_ran.get());
}

#[test]
fn cancelling_an_arm_cancels_its_body() {
    let first_body_started = Cell::new(false);
    let first_body_finished = Cell::new(false);
    let second_body_ran = Cell::new(false);
    let labels = Labels::default();
    let first = 0;
    let ret = run_to_end(
        labels.clone(),
        vec![
            future(ready(1))
                .then_run(|_| {
                    Box::pin(async {
                        first_body_started.set(true);
                        nearly_forever().await;
                        first_body_finished.set(true);
                        Ok(Val::Unit)
                    })
                })
                .label(),
            future(ready(2)).body(|_| second_body_ran.set(true)).maybe(),
            future(async {
                sleep(Duration::from_millis(10)).await;
                labels.cancel(first);
            }),
        ],
    );
    assert!(first_body_started.get());
    assert!(!first_body_finished.get());
    assert!(!second_body_ran.get());
    assert_eq!(ret, vec![none(), none(), value(())]);
}

#[test]
fn streams_run_their_body_for_each_item() {
    let total = Cell::new(0);
    run_to_end(
        Labels::default(),
        vec![
            items(stream::iter([1, 2, 3])).body(|n| total.set(total.get() + n.number())),
            items(stream::iter([4, 5, 6])).body(|m| total.set(total.get() + m.number())),
        ],
    );
    assert_eq!(total.get(), 21);
}

#[test]
fn finally_gives_a_stream_its_value() {
    let ret = run_to_end(
        Labels::default(),
        vec![
            items(stream::iter([42])).body(|_| ()),
            items(stream::iter([42])).body(|_| ()).finally(|| 1),
            items(stream::iter([42]))
                .body(|_| ())
                .finally_run(|| Box::pin(async { Ok(Val::Int(ready(2).await)) })),
            items(stream::iter([42])).body(|_| ()).finally(|| 3).maybe(),
            future(async { sleep(Duration::from_millis(10)).await }),
            items(stream::iter([42]))
                .body(|_| ())
                .finally_run(|| {
                    Box::pin(async {
                        sleep(Duration::from_millis(20)).await;
                        Ok(Val::Int(2))
                    })
                })
                .maybe(),
        ],
    );
    assert_eq!(ret, vec![unit(), value(1), value(2), some(3), value(()), none()]);
}

#[test]
fn a_cancelled_stream_runs_no_finally() {
    let counter = Cell::new(0);
    let labels = Labels::default();
    let my_stream = 0;
    let ret = run_to_end(
        labels.clone(),
        vec![
            items(stream::iter(0..5).then(|i: i64| async move {
                sleep(Duration::from_millis(20)).await;
                i
            }))
            .body(|_| counter.set(counter.get() + 1))
            .finally(|| counter.set(counter.get() + 1_000_000))
            .label(),
            future(async {
                sleep(Duration::from_millis(70)).await;
                labels.cancel(my_stream);
            }),
        ],
    );
    assert_eq!(counter.get(), 3);
    assert_eq!(ret, vec![none(), value(())]);
}

#[test]
fn no_item_is_lost_while_a_body_waits() {
    let seen = RefCell::new(Vec::new());
    let ret = run_to_end(
        Labels::default(),
        vec![
            // This body runs first, and keeps the others waiting.
            future(ready(0)).then_run(|_| {
                Box::pin(async {
                    sleep(Duration::from_millis(20)).await;
                    Ok(Val::Int(7))
                })
            }),
            // This stream is ready all the time.
            items(stream::iter(0..4)).body(|x| seen.borrow_mut().push(x.number())),
            // This future wakes the join up again and again.
            future(async {
                for _ in 0..5 {
                    sleep(Duration::from_millis(2)).await;
                }
            }),
        ],
    );
    assert_eq!(seen.into_inner(), [0, 1, 2, 3]);
    assert_eq!(ret, vec![value(7), unit(), value(())]);
}

#[test]
fn what_a_body_cancels_is_dropped_before_the_join_waits() {
    let mutex = tokio::sync::Mutex::new(5);
    let labels = Labels::default();
    let foo = 0;
    let ret = run_to_end(
        labels.clone(),
        vec![
            future(async {
                let _guard = mutex.lock().await;
                pending::<()>().await;
            })
            .label(),
            // The lock is free only once `foo` is dropped, and nothing else wakes the join up.
            future(async { *mutex.lock().await }),
            future(ready(())).body(|_| labels.cancel(foo)),
        ],
    );
    assert_eq!(ret, vec![none(), value(5), value(())]);
}

#[test]
fn a_stream_that_cancels_itself_gives_its_body_nothing() {
    let ran = Cell::new(false);
    let labels = Labels::default();
    let inner = labels.clone();
    let ret = run_to_end(
        labels,
        vec![
            items(poll_stream(move || inner.cancel(0))).body(|_| ran.set(true)).label(),
            future(ready(1)),
        ],
    );
    assert!(!ran.get());
    assert_eq!(ret, vec![unit(), value(1)]);
}

/// A stream that calls a function whenever it is polled, and gives an item.
fn poll_stream(mut f: impl FnMut() + Unpin) -> impl Stream<Item = i64> {
    stream::poll_fn(move |_| {
        f();
        Poll::Ready(Some(1))
    })
}

#[test]
fn a_body_that_cancels_itself_goes_on_to_its_next_await() {
    let labels = Labels::default();
    let after_cancel = Cell::new(false);
    let after_await = Cell::new(false);
    let ret = run_to_end(
        labels.clone(),
        vec![
            future(ready(1))
                .then_run(|_| {
                    Box::pin(async {
                        labels.cancel(0);
                        after_cancel.set(true);
                        sleep(Duration::from_millis(1)).await;
                        after_await.set(true);
                        Ok(Val::Unit)
                    })
                })
                .label(),
            future(ready(2)),
        ],
    );
    assert!(after_cancel.get());
    assert!(!after_await.get());
    assert_eq!(ret, vec![none(), value(2)]);
}

#[test]
fn a_maybe_body_runs_before_the_next_arm_is_polled() {
    let order = RefCell::new(Vec::new());
    let ret = run_to_end(
        Labels::default(),
        vec![
            future(ready(1)).body(|x| order.borrow_mut().push(x.number())).maybe(),
            future(async { order.borrow_mut().push(2) }),
        ],
    );
    assert_eq!(order.into_inner(), [1, 2]);
    assert_eq!(ret, vec![some(()), value(())]);
}

#[test]
fn a_maybe_body_that_waits_does_not_delay_the_end() {
    let ret = run_to_end(
        Labels::default(),
        vec![
            future(ready(1))
                .then_run(|_| {
                    Box::pin(async {
                        pending::<()>().await;
                        Ok(Val::Unit)
                    })
                })
                .maybe(),
            future(ready(2)).body(|x| x.number()),
        ],
    );
    assert_eq!(ret, vec![none(), value(2)]);
}
