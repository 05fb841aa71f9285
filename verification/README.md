# worker_pool

The background worker pool of an embedded storage engine, verified with Verus.

- `src/` is the library. It decides what a worker does next: when a flush task is taken, when
  the journal is rotated, which keyspace is compacted, when a worker wakes another, when it
  waits and when it closes. It also keeps the books on the counter of active threads.
- `app/` runs the workers on threads and does for them what they ask of the engine.
- `tests/` runs the library.

A worker makes one request at a time (`engine::Request`) and goes on when it has the reply
(`engine::Reply`). The public proof functions named `law_..` state what holds of the library as
a whole, such as that a worker waits only when there is nothing to do, that it holds no lock
meanwhile, that extra pokes are dropped, and that with one guard for each worker that was
started, the counter counts the workers that run and comes back once they are told to stop.

What the library does is proved, on the strength of a few contracts that are believed without
proof. They say what the calls into other code do, and each has a doc comment that names the
call:

- in `slots`: `SlotCounter::claim` and `SlotCounter::release` (the atomic counter);
- in `channel`: `Ends::bounded`, `Ends::share`, `Ends::try_send` and `Ends::recv` (the two ends
  of a `flume` channel), and what `room_between` names;
- in `stop`: `StopFlag::is_stopped` and the clone of the `lsm_tree` stop signal.

As long as a pool is the only holder of its line, what a poke comes to is proved from these. Once
the line has more holders, it depends on all of them: the laws then speak of the order in which
what they did took effect. That a worker which waits is woken is up to the threads that poke, and
that a guard is dropped on every way out of a thread is up to the language.
