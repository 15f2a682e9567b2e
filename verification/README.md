# osaka

The core of a runtime for discrete-event simulations of asynchronous Rust:
simulated time, a timer that wakes sleeping tasks when the simulation clock
reaches their deadline, a fair counting semaphore, and the decisions of a
single-threaded task scheduler. The library in `src/` is written in Verus and
every function in it is proved against its contract.

- `src/time/`: `Duration` and `SimTime` with exact nanosecond arithmetic, the
  timer (`TimeDriver`) and the `Sleep` wait.
- `src/sync/`: the semaphore whose waiters are served oldest first
  (`batch_semaphore`) and the permit-based `Semaphore` on top of it.
- `src/runtime/`: task ids, task errors, the list of owned tasks, and the
  scheduler as a state machine: it says which task runs next, when the
  scheduler has run out of work, and what happens on shutdown.
- `src/task_waker.rs`: the handles that wake tasks, and `Poll`.

`app/` holds what Verus does not take: the futures, the thread-local clock and
context, the runtime loop that polls tasks as the scheduler tells it to, and
the `Display` forms of the errors.
