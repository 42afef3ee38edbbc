//! The state of a channel: the ring buffer and the wakeups that its operations owe.
//!
//! The owner serialises access to a [`ConcurrentRing`] with one lock. An operation is carried
//! out under the lock; the wakeups that it owes are collected with
//! [`ConcurrentRing::take_wakeups`] and given after the lock has been released.

use std::sync::Arc;
use std::time::{Duration, Instant};
use vstd::prelude::*;

pub mod ring_buffer;
pub mod ring_view;

pub use ring_buffer::{ChannelMode, PopResult, ReportChannel, Ring};

use crate::clock::{
    clamped_ttl, deadline_spec, duration_nanos, is_deadline, is_reading, ttl_in_range,
};
use crate::concurrency::ring_view::{expired_items, soonest, RingView};
use crate::error::CaducusError;

verus! {

/// Controls whether a drain also claims the next live item.
#[derive(Debug, Clone, Copy, PartialEq, Eq, Structural)]
pub enum DrainMode {
    /// Drain expired items only. Used by the reclaimer.
    DrainOnly,
    /// Drain expired items and pop the next live item. Used by the receiver.
    DrainAndClaim,
}

/// Result of a single drain.
#[verifier::reject_recursive_types(T)]
pub struct DrainResult<T> {
    /// The expired items, in FIFO order.
    pub expired: Vec<PopResult<T>>,
    /// The next live item, if it was to be claimed and there was one.
    pub live: Option<PopResult<T>>,
    /// The soonest deadline among the items left, or `None` if the buffer is empty.
    pub next_deadline: Option<Instant>,
    /// Whether the buffer has been shut down.
    pub is_shutdown: bool,
}

/// The tasks to be woken.
#[derive(Debug, Clone, Copy, PartialEq, Eq, Structural)]
pub struct Wakeups {
    /// Wake the reclaimer.
    pub reclaimer: bool,
    /// Wake the receiver.
    pub receiver: bool,
}

/// No task.
pub open spec fn no_wakeups() -> Wakeups {
    Wakeups { reclaimer: false, receiver: false }
}

/// Both tasks.
pub open spec fn all_wakeups() -> Wakeups {
    Wakeups { reclaimer: true, receiver: true }
}

/// The ring buffer of a channel together with the wakeups owed.
#[verifier::reject_recursive_types(T)]
pub struct ConcurrentRing<T> {
    ring: Ring<T>,
    wakeups: Wakeups,
}

impl<T> View for ConcurrentRing<T> {
    type V = RingView<T>;

    closed spec fn view(&self) -> RingView<T> {
        self.ring@
    }
}

impl<T> ConcurrentRing<T> {
    /// Whether the channel is in a state that its operations leave it in.
    pub closed spec fn storage_ok(&self) -> bool {
        self.ring.storage_ok()
    }

    /// Whether the channel is in a state that its operations leave it in.
    pub open spec fn wf(&self) -> bool {
        self.storage_ok() && self@.inv()
    }

    /// The wakeups that have been owed since they were last collected.
    pub closed spec fn owed(&self) -> Wakeups {
        self.wakeups
    }

    /// The view shows the ring buffer as it is, and the wakeups owed are the stored ones.
    proof fn law_view_is_the_ring(&self)
        ensures
            self@ == self.ring@,
            self.wf() <==> self.ring.wf(),
            self.owed() == self.wakeups,
    {
    }

    /// Creates the state of a new channel.
    ///
    /// Returns `InvalidArgument` if `ttl` is outside the accepted range.
    pub fn new(
        capacity: usize,
        ttl: Duration,
        mode: ChannelMode,
        expiry_channel: Option<Arc<dyn ReportChannel<T>>>,
        shutdown_channel: Option<Arc<dyn ReportChannel<T>>>,
    ) -> (result: Result<Self, CaducusError>)
        ensures
            match result {
                Ok(ring) => {
                    &&& ttl_in_range(duration_nanos(ttl))
                    &&& ring.wf()
                    &&& ring.owed() == no_wakeups()
                    &&& ring@ == RingView::empty(
                        capacity as nat,
                        duration_nanos(ttl),
                        mode,
                        expiry_channel,
                        shutdown_channel,
                    )
                },
                Err(e) => {
                    &&& !ttl_in_range(duration_nanos(ttl))
                    &&& e.kind is InvalidArgument
                },
            },
    {
        match Ring::new(capacity, ttl, mode, expiry_channel, shutdown_channel) {
            Ok(ring) => Ok(
                ConcurrentRing { ring, wakeups: Wakeups { reclaimer: false, receiver: false } },
            ),
            Err(e) => Err(e),
        }
    }

    /// Owes a wakeup to both tasks.
    fn wake_all(&mut self)
        ensures
            final(self)@ == old(self)@,
            final(self).storage_ok() == old(self).storage_ok(),
            final(self).owed() == all_wakeups(),
    {
        self.wakeups = Wakeups { reclaimer: true, receiver: true };
    }

    /// Hands over the wakeups owed.
    pub fn take_wakeups(&mut self) -> (wakeups: Wakeups)
        ensures
            final(self)@ == old(self)@,
            final(self).storage_ok() == old(self).storage_ok(),
            wakeups == old(self).owed(),
            final(self).owed() == no_wakeups(),
    {
        let wakeups = self.wakeups;
        self.wakeups = Wakeups { reclaimer: false, receiver: false };
        wakeups
    }

    /// SPSC send of an item with the deadline `expires_at`. Wakes both tasks on success.
    pub fn send_spsc_until(&mut self, item: T, expires_at: Instant) -> (result: Result<
        (),
        CaducusError<T>,
    >)
        requires
            old(self).wf(),
        ensures
            final(self).wf(),
            match old(self)@.rejection(ChannelMode::Spsc, item) {
                Some(kind) => {
                    &&& result == Err::<(), CaducusError<T>>(CaducusError { kind })
                    &&& final(self)@ == old(self)@
                    &&& final(self).owed() == old(self).owed()
                },
                None => {
                    &&& result is Ok
                    &&& final(self)@ == old(self)@.pushed_spsc(item, expires_at)
                    &&& final(self).owed() == all_wakeups()
                },
            },
    {
        let result = self.ring.try_push_spsc_until(item, expires_at);
        if result.is_ok() {
            self.wake_all();
        }
        result
    }

    /// SPSC send at the time `now`, with the configured TTL. Wakes both tasks on success.
    pub fn send_spsc_at(&mut self, item: T, now: Instant) -> (result: Result<(), CaducusError<T>>)
        requires
            old(self).wf(),
        ensures
            final(self).wf(),
            match old(self)@.rejection(ChannelMode::Spsc, item) {
                Some(kind) => {
                    &&& result == Err::<(), CaducusError<T>>(CaducusError { kind })
                    &&& final(self)@ == old(self)@
                    &&& final(self).owed() == old(self).owed()
                },
                None => {
                    &&& result is Ok
                    &&& final(self)@ == old(self)@.pushed_spsc(
                        item,
                        deadline_spec(now, clamped_ttl(old(self)@.ttl)),
                    )
                    &&& is_deadline(
                        deadline_spec(now, clamped_ttl(old(self)@.ttl)),
                        now,
                        clamped_ttl(old(self)@.ttl),
                    )
                    &&& final(self).owed() == all_wakeups()
                },
            },
    {
        let result = self.ring.try_push_spsc_at(item, now);
        if result.is_ok() {
            self.wake_all();
        }
        result
    }

    /// SPSC send with the configured TTL. Wakes both tasks on success.
    pub fn send_spsc(&mut self, item: T) -> (result: Result<(), CaducusError<T>>)
        requires
            old(self).wf(),
        ensures
            final(self).wf(),
            match old(self)@.rejection(ChannelMode::Spsc, item) {
                Some(kind) => {
                    &&& result == Err::<(), CaducusError<T>>(CaducusError { kind })
                    &&& final(self)@ == old(self)@
                    &&& final(self).owed() == old(self).owed()
                },
                None => {
                    &&& result is Ok
                    &&& exists|now: Instant, t: Instant|
                        {
                            &&& is_reading(now)
                            &&& #[trigger] is_deadline(t, now, clamped_ttl(old(self)@.ttl))
                            &&& final(self)@ == old(self)@.pushed_spsc(item, t)
                        }
                    &&& final(self).owed() == all_wakeups()
                },
            },
    {
        let now: Instant = Instant::now();
        self.send_spsc_at(item, now)
    }

    /// MPSC send of an item with the deadline `expires_at`. Wakes both tasks on success.
    pub fn send_mpsc_until(
        &mut self,
        item: T,
        expires_at: Instant,
        expiry_channel: Option<Arc<dyn ReportChannel<T>>>,
        shutdown_channel: Option<Arc<dyn ReportChannel<T>>>,
    ) -> (result: Result<(), CaducusError<T>>)
        requires
            old(self).wf(),
        ensures
            final(self).wf(),
            match old(self)@.rejection(ChannelMode::Mpsc, item) {
                Some(kind) => {
                    &&& result == Err::<(), CaducusError<T>>(CaducusError { kind })
                    &&& final(self)@ == old(self)@
                    &&& final(self).owed() == old(self).owed()
                },
                None => {
                    &&& result is Ok
                    &&& final(self)@ == old(self)@.pushed_mpsc(
                        item,
                        expires_at,
                        expiry_channel,
                        shutdown_channel,
                    )
                    &&& final(self).owed() == all_wakeups()
                },
            },
    {
        let result = self.ring.try_push_mpsc_until(
            item,
            expires_at,
            expiry_channel,
            shutdown_channel,
        );
        if result.is_ok() {
            self.wake_all();
        }
        result
    }

    /// MPSC send at the time `now`, with the configured TTL. Wakes both tasks on success.
    pub fn send_mpsc_at(
        &mut self,
        item: T,
        now: Instant,
        expiry_channel: Option<Arc<dyn ReportChannel<T>>>,
        shutdown_channel: Option<Arc<dyn ReportChannel<T>>>,
    ) -> (result: Result<(), CaducusError<T>>)
        requires
            old(self).wf(),
        ensures
            final(self).wf(),
            match old(self)@.rejection(ChannelMode::Mpsc, item) {
                Some(kind) => {
                    &&& result == Err::<(), CaducusError<T>>(CaducusError { kind })
                    &&& final(self)@ == old(self)@
                    &&& final(self).owed() == old(self).owed()
                },
                None => {
                    &&& result is Ok
                    &&& final(self)@ == old(self)@.pushed_mpsc(
                        item,
                        deadline_spec(now, clamped_ttl(old(self)@.ttl)),
                        expiry_channel,
                        shutdown_channel,
                    )
                    &&& is_deadline(
                        deadline_spec(now, clamped_ttl(old(self)@.ttl)),
                        now,
                        clamped_ttl(old(self)@.ttl),
                    )
                    &&& final(self).owed() == all_wakeups()
                },
            },
    {
        let result = self.ring.try_push_mpsc_at(item, now, expiry_channel, shutdown_channel);
        if result.is_ok() {
            self.wake_all();
        }
        result
    }

    /// MPSC send with the configured TTL. The item keeps the given report channels. Wakes both
    /// tasks on success.
    pub fn send_mpsc(
        &mut self,
        item: T,
        expiry_channel: Option<Arc<dyn ReportChannel<T>>>,
        shutdown_channel: Option<Arc<dyn ReportChannel<T>>>,
    ) -> (result: Result<(), CaducusError<T>>)
        requires
            old(self).wf(),
        ensures
            final(self).wf(),
            match old(self)@.rejection(ChannelMode::Mpsc, item) {
                Some(kind) => {
                    &&& result == Err::<(), CaducusError<T>>(CaducusError { kind })
                    &&& final(self)@ == old(self)@
                    &&& final(self).owed() == old(self).owed()
                },
                None => {
                    &&& result is Ok
                    &&& exists|now: Instant, t: Instant|
                        {
                            &&& is_reading(now)
                            &&& #[trigger] is_deadline(t, now, clamped_ttl(old(self)@.ttl))
                            &&& final(self)@ == old(self)@.pushed_mpsc(
                                item,
                                t,
                                expiry_channel,
                                shutdown_channel,
                            )
                        }
                    &&& final(self).owed() == all_wakeups()
                },
            },
    {
        let now: Instant = Instant::now();
        self.send_mpsc_at(item, now, expiry_channel, shutdown_channel)
    }

    /// Drains all expired items and, in mode `DrainAndClaim`, claims the next live item.
    ///
    /// Owes no wakeup: the caller decides what to do with the result.
    pub fn drain(&mut self, now: Instant, mode: DrainMode) -> (result: DrainResult<T>)
        requires
            old(self).wf(),
        ensures
            final(self).wf(),
            final(self)@ == old(self)@.drained_as(now, mode),
            final(self).owed() == old(self).owed(),
            result.expired@ == expired_items(old(self)@.entries, now),
            result.live == old(self)@.claimed(now, mode),
            result.next_deadline == soonest(final(self)@.entries),
            result.is_shutdown == old(self)@.shutdown,
    {
        let expired = self.ring.drain_expired(now);
        let live = match mode {
            DrainMode::DrainAndClaim => self.ring.try_pop(),
            DrainMode::DrainOnly => None,
        };
        let next_deadline = self.ring.peek_expires_at();
        let is_shutdown: bool = self.ring.is_shutdown();
        DrainResult { expired, live, next_deadline, is_shutdown }
    }

    /// Updates the TTL. Rejects values outside the accepted range with `InvalidArgument`.
    pub fn update_ttl(&mut self, duration: Duration) -> (result: Result<(), CaducusError>)
        requires
            old(self).wf(),
        ensures
            final(self).wf(),
            final(self).owed() == old(self).owed(),
            match result {
                Ok(_) => {
                    &&& ttl_in_range(duration_nanos(duration))
                    &&& final(self)@ == old(self)@.with_ttl(duration_nanos(duration))
                },
                Err(e) => {
                    &&& !ttl_in_range(duration_nanos(duration))
                    &&& e.kind is InvalidArgument
                    &&& final(self)@ == old(self)@
                },
            },
    {
        self.ring.set_ttl(duration)
    }

    /// Updates the buffer capacity. Wakes both tasks.
    pub fn update_capacity(&mut self, new: usize)
        requires
            old(self).wf(),
        ensures
            final(self).wf(),
            final(self)@ == old(self)@.with_capacity(new as nat),
            final(self).owed() == all_wakeups(),
    {
        self.ring.request_capacity(new);
        self.wake_all();
    }

    /// Shuts the buffer down and returns all items left. Wakes both tasks.
    pub fn shutdown(&mut self) -> (items: Vec<PopResult<T>>)
        requires
            old(self).wf(),
        ensures
            final(self).wf(),
            items@ == old(self)@.entries,
            final(self)@ == old(self)@.shut_down(),
            final(self).owed() == all_wakeups(),
    {
        let items = self.ring.shutdown();
        self.wake_all();
        items
    }

    /// Whether the buffer has been shut down.
    pub fn is_shutdown(&self) -> (yes: bool)
        ensures
            yes == self@.shutdown,
    {
        self.ring.is_shutdown()
    }
}

} // verus!
