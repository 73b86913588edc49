//! A fixed-size worker pool's dispatch core: an unbounded FIFO task channel
//! with a one-way close, the state machine each worker thread follows, and the
//! pool that ties them together. The threads themselves run elsewhere and
//! drive this core through `Pool::claim` and `Pool::finish`.
pub mod channel;
pub mod laws;
pub mod pool;
pub mod worker;

pub use channel::{Take, TaskChannel};
pub use pool::Pool;
pub use worker::{Action, Event, WorkerState};
