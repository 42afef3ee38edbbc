//! Bounded channel with item expiry.
//!
//! Caducus (latin) = perishable. A channel holds a bounded number of items in FIFO order. Each
//! item has a deadline: the receiver gets the oldest item that is still live, and an item that
//! expires first is given back to its sender's side through its report channel, or dropped if it has
//! none. At shutdown the same happens to the items left. Every item sent is accounted for exactly
//! once.
//!
//! This crate is the channel without its tasks. It decides what happens to items; whoever embeds
//! it provides the lock, the wakeups, the timers and the delivery of reports.
//!
//! - [`clock`]: deadlines and the range of TTLs.
//! - [`concurrency`]: the ring buffer, its model, and the state of a channel with the wakeups it
//!   owes.
//! - [`reclaimer`]: which items are reported where, what the receiver gets, and what the reclaimer
//!   task does next.
//! - [`receiver`]: the wait loop of the receiver as a state machine.
//! - [`sender`] and [`runtime`]: builders, senders, per-item deadlines.
//! - [`laws`]: what holds of the channel over any sequence of operations.

pub mod clock;
pub mod concurrency;
pub mod error;
pub mod laws;
pub mod receiver;
pub mod reclaimer;
pub mod runtime;
pub mod sender;

pub use concurrency::ReportChannel;
pub use error::{CaducusError, CaducusErrorKind};
pub use sender::{MpscBuilder, MpscSender, SpscBuilder};
