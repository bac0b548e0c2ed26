# join_me_maybe_core

The verified core of a `join!` macro that can leave futures behind (`maybe`), cancel them by name
(`label:` and `.cancel()`), run bodies on their results (`=>`), and drive streams (`in`, `finally`).

```text
join!(
    x = fetch() => total += x,                 // waited for, with a body
    maybe refresh(),                           // left behind when nothing else is left to wait for
    feed: item in events() => handle(item)     // a stream that others can cancel as `feed`
        finally close(),
)
```

## Layout

- `src/` is the library. Everything in it is verified with Verus.
  - `source` reads the tokens of the input, with the help of `proc_macro2` and `syn`.
  - `syntax` is the grammar: from tokens to arms, or to an error with its message.
  - `shape` is what the rest needs to know of an arm.
  - `expansion` says what a join expands to, piece by piece. `emit` writes it out, `render` makes
    text of it, and `entry` is the macro as a whole.
  - `driver` is the loop as a state machine: it says what to poll, start, run and drop, and the
    caller does it. The expansion is written to do the same. That it does is a matter of reading
    the two side by side, and is not proved.
  - `canceller`, `poll` and `maybe_done` are the small types around a running join.
  - `laws` and `expansion_laws` state what holds of every join and of every expansion.
- `app/` is the crate that users see: the macro from tokens to tokens, and the types that the
  expansion refers to, with atomics, pins and real futures.
- `tests/` runs the library.

## What is proved

Of every join that `driver` runs, whatever its futures, streams and bodies answer, and whenever arms
are cancelled:

- the count of arms that are over is exact; the join ends when, and only when, each arm that it
  waits for has been cancelled, or its future or stream has finished and no body of it is running
  or still to run;
- a cancelled arm is never polled again, nor is its body, and both are dropped before the join
  waits;
- the join waits only when every future and stream that it holds has registered a wakeup, or has an
  item that waits for the body that is running;
- one body runs at a time, on each item once and in order, and `finally` runs after the last;
- when the join ends it holds nothing, and every arm that was waited for and not cancelled has its
  value.

Of every expansion: the user's expressions stand in it once and in order, labels are bound before
them, and generated names do not clash.

Of the grammar: a join that is accepted has something to wait for and no label twice, its arms
follow each other in the input, and a trailing comma changes nothing, given that the Rust parser
leaves the comma behind wherever it reads an expression or a pattern.
