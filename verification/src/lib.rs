//! The background worker pool of an embedded storage engine.
//!
//! Workers flush memtables to disk, rotate memtables and compact keyspaces. What a worker does
//! next is decided here; what it asks for is done by the storage engine, on the threads that
//! the embedding program spawns.
//!
//! - [`pool`]: the pool itself, how it is started and woken;
//! - [`slots`], [`claim`] and [`guard`]: the counter of active threads, which must reach zero
//!   before a database can be closed, and how a worker gets its slot and hands it back;
//! - [`spawner`]: what spawns the workers, with the record of its calls;
//! - [`wake`] and [`stop`]: the signals that reach a worker from outside; [`channel`] is what the
//!   wakes go over;
//! - [`engine`]: the requests that a worker makes of the engine, and the replies;
//! - [`worker`], [`tick`], [`flush`] and [`pending`]: the life of a worker, a round of it, and
//!   the two kinds of work;
//! - [`tick_run`] and [`pending_run`]: what whole rounds come to, and search after search;
//! - [`protocol`] and [`life_run`]: what follows what in the life of a worker, and what its rounds
//!   come to;
//! - [`closing`]: what becomes of the workers and of their slots when they are told to stop.

pub mod channel;
pub mod claim;
pub mod closing;
pub mod engine;
pub mod flush;
pub mod guard;
pub mod life_run;
pub mod pending;
pub mod pending_run;
pub mod pool;
pub mod protocol;
pub mod slots;
pub mod spawner;
pub mod stop;
pub mod tick;
pub mod tick_run;
pub mod wake;
pub mod worker;
