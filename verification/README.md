# Caducus

_Caducus (lat.): perishable_

A bounded channel with item expiry, in single-producer and multi-producer modes, verified with
[Verus](https://github.com/verus-lang/verus).

The receiver is offered an item until it expires. An item that expires, or that is left in the
buffer at shutdown, is given back through a report channel, or dropped if it has none. What is
proved includes:

- every item sent is received, removed as expired, removed at shutdown, or still in the buffer,
  exactly once;
- every item that is removed and has a report channel is routed to it, exactly once and in order;
- the receiver gets the oldest live item, and never one that has expired;
- shutdown is final, and every rejected send gives its item back;
- a deferred shrink completes as soon as the items fit;
- a receive operation keeps the deadline that it started with, and times out only when it is due.

## Layout

- `src/`: the verified library. It holds the ring buffer, the state of a channel, the decisions of
  the reclaimer and of the receiver's wait loop, the builders, and the laws of the channel as a
  whole (`src/laws.rs`).
- `app/`: the asynchronous shell on Tokio. It adds the lock, the wakeups, the reclaimer task, the
  delivery of reports and the destructors.
- `tests/`: tests of the library.

## What is trusted

Contracts rest on statements about `std::time::Instant` and `Duration` (`src/clock.rs`) and on the
signature of `tokio::runtime::Handle::try_current` (`src/runtime.rs`). Each states in its doc
comment what it claims.
