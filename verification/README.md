# way

A channel for many senders and many receivers with a fixed capacity, which may
be zero. Values come out in the order in which they went in. A sender that finds
no room and a receiver that finds no value wait, and they are served in the order
in which they came.

The library under `src/` is verified with Verus.

- `state` is the mathematical model: what a channel holds, and what each operation
  makes of it.
- `internal` is the channel itself. Each of its functions is proved to do exactly
  what the model says.
- `signal`, `waker`, `table` and `terminator` are its parts: the state of one
  sender or receiver that waits, the task to wake, and the names of the signals.
- `laws` states and proves what holds across the operations: among other things
  that values are received in the order in which they were sent, that nobody waits
  without need, and that closing a channel releases all that wait.
- `shared` puts the channel behind an `xutex` lock; that it is orderly whenever the
  lock is free is an invariant of the type. `locked` has one function for each
  operation on a locked channel, and wakes tasks after the lock is released.
- `channel` and `sync` are the handles, `waiting` is a send or a receive that
  waits, `backoff` plans how a thread waits without a waker.

What is found behind a lock depends on all threads that held it. The contracts of
`locked`, `channel`, `sync` and `waiting` speak of the channel that was reached by
locking it: in which state it was found, in which state it was left, what came
back, and which tasks were woken. They claim that the channel was reached so. That
it was not reached another time in the same call, they do not say; `shared` and
`internal` have the contracts that leave nothing open.

A handle counts as alive until it is released. The handles under `app/` release
themselves when they are dropped, and there the operations of tasks are futures.
