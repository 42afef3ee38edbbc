//! The send side: builders, per-item deadlines, the report channels of a sender, and the number
//! of senders.

use std::sync::Arc;
use std::time::{Duration, Instant};
use tokio::runtime::{Handle, TryCurrentError};
use vstd::prelude::*;

use crate::clock::{
    at_or_before, clamped_ttl, deadline_after, deadline_spec, duration_nanos, instant_nanos,
    is_deadline, is_reading, is_valid_ttl, ttl_in_range,
};
use crate::concurrency::ring_buffer::clone_channel;
use crate::concurrency::ring_view::RingView;
use crate::concurrency::{all_wakeups, no_wakeups, ChannelMode, ConcurrentRing, ReportChannel};
use crate::error::{CaducusError, CaducusErrorKind};
use crate::runtime::{choose_runtime, is_ambient};

verus! {

/// Builder for an SPSC (single-producer, single-consumer) channel.
///
/// Report channels are optional and used for all items. Where one is not configured, the
/// corresponding items are dropped silently.
#[verifier::reject_recursive_types(T)]
pub struct SpscBuilder<T> {
    /// The buffer capacity.
    pub capacity: usize,
    /// The TTL of an item.
    pub ttl: Duration,
    /// The channel for items that expire.
    pub expiry_channel: Option<Arc<dyn ReportChannel<T>>>,
    /// The channel for items left at shutdown.
    pub shutdown_channel: Option<Arc<dyn ReportChannel<T>>>,
    /// The runtime that the reclaimer is to run on.
    pub runtime: Option<Handle>,
}

/// A channel as it is built: its state, and the runtime that the reclaimer is to be started on.
#[verifier::reject_recursive_types(T)]
pub struct SpscParts<T> {
    /// The runtime.
    pub runtime: Handle,
    /// The state of the channel.
    pub ring: ConcurrentRing<T>,
}

impl<T> SpscBuilder<T> {
    /// Creates a builder with the given buffer `capacity` and per-item `ttl`.
    pub fn new(capacity: usize, ttl: Duration) -> (builder: Self)
        ensures
            builder.capacity == capacity,
            builder.ttl == ttl,
            builder.expiry_channel is None,
            builder.shutdown_channel is None,
            builder.runtime is None,
    {
        SpscBuilder { capacity, ttl, expiry_channel: None, shutdown_channel: None, runtime: None }
    }

    /// Sets the channel that receives items expired due to TTL.
    pub fn expiry_channel(self, ch: Arc<dyn ReportChannel<T>>) -> (builder: Self)
        ensures
            builder.expiry_channel == Some(ch),
            builder == (SpscBuilder { expiry_channel: builder.expiry_channel, ..self }),
    {
        let handle = Some(ch);
        SpscBuilder { expiry_channel: handle, ..self }
    }

    /// Sets the channel that receives items left in the buffer at shutdown.
    pub fn shutdown_channel(self, ch: Arc<dyn ReportChannel<T>>) -> (builder: Self)
        ensures
            builder.shutdown_channel == Some(ch),
            builder == (SpscBuilder { shutdown_channel: builder.shutdown_channel, ..self }),
    {
        let handle = Some(ch);
        SpscBuilder { shutdown_channel: handle, ..self }
    }

    /// Sets an explicit Tokio runtime handle. Without one the ambient runtime is used.
    pub fn runtime(self, handle: Handle) -> (builder: Self)
        ensures
            builder == (SpscBuilder { runtime: Some(handle), ..self }),
    {
        SpscBuilder { runtime: Some(handle), ..self }
    }

    /// The buffer of the channel that is built.
    pub open spec fn buffer(self) -> RingView<T> {
        RingView::empty(
            self.capacity as nat,
            duration_nanos(self.ttl),
            ChannelMode::Spsc,
            self.expiry_channel,
            self.shutdown_channel,
        )
    }

    /// What building the channel on the runtime `runtime` gives: `InvalidArgument` exactly if the
    /// TTL is outside the accepted range, otherwise the channel.
    pub open spec fn built_on(
        self,
        runtime: Handle,
        result: Result<SpscParts<T>, CaducusError>,
    ) -> bool {
        match result {
            Ok(parts) => {
                &&& ttl_in_range(duration_nanos(self.ttl))
                &&& parts.runtime == runtime
                &&& parts.ring.wf()
                &&& parts.ring.owed() == no_wakeups()
                &&& parts.ring@ == self.buffer()
            },
            Err(e) => {
                &&& !ttl_in_range(duration_nanos(self.ttl))
                &&& e.kind is InvalidArgument
            },
        }
    }

    /// What building the channel gives, where `current` is the outcome of asking for the ambient
    /// runtime. The runtime is resolved first: without one the answer is `NoRuntime`, whatever the
    /// TTL.
    pub open spec fn built_with(
        self,
        current: Result<Handle, TryCurrentError>,
        result: Result<SpscParts<T>, CaducusError>,
    ) -> bool {
        match (self.runtime, current) {
            (Some(handle), _) => self.built_on(handle, result),
            (None, Ok(handle)) => self.built_on(handle, result),
            (None, Err(_)) => result matches Err(e) && e.kind is NoRuntime,
        }
    }

    /// Builds the channel on the runtime `runtime`.
    pub fn build_on(self, runtime: Handle) -> (result: Result<SpscParts<T>, CaducusError>)
        ensures
            self.built_on(runtime, result),
    {
        match ConcurrentRing::new(
            self.capacity,
            self.ttl,
            ChannelMode::Spsc,
            self.expiry_channel,
            self.shutdown_channel,
        ) {
            Ok(ring) => Ok(SpscParts { runtime, ring }),
            Err(e) => Err(e),
        }
    }

    /// Builds the channel on the runtime that was set, otherwise on the ambient one, which
    /// `current` is the outcome of asking for. Fails with `NoRuntime` if there is neither, and
    /// otherwise with `InvalidArgument` if the TTL is outside the accepted range.
    pub fn build_with(self, current: Result<Handle, TryCurrentError>) -> (result: Result<
        SpscParts<T>,
        CaducusError,
    >)
        ensures
            self.built_with(current, result),
    {
        let SpscBuilder { capacity, ttl, expiry_channel, shutdown_channel, runtime } = self;
        match choose_runtime(runtime, current) {
            Ok(handle) => {
                let rest = SpscBuilder {
                    capacity,
                    ttl,
                    expiry_channel,
                    shutdown_channel,
                    runtime: None,
                };
                rest.build_on(handle)
            },
            Err(e) => Err(e),
        }
    }

    /// Builds the channel on the runtime that was set, otherwise on that of the caller. Fails with
    /// `NoRuntime` if there is neither, and otherwise with `InvalidArgument` if the TTL is outside
    /// the accepted range.
    pub fn build(self) -> (result: Result<SpscParts<T>, CaducusError>)
        ensures
            self.runtime matches Some(handle) ==> self.built_on(handle, result),
            exists|current: Result<Handle, TryCurrentError>|
                {
                    &&& self.runtime is None ==> is_ambient(current)
                    &&& #[trigger] self.built_with(current, result)
                },
    {
        let SpscBuilder { capacity, ttl, expiry_channel, shutdown_channel, runtime } = self;
        let rest = SpscBuilder { capacity, ttl, expiry_channel, shutdown_channel, runtime: None };
        match runtime {
            Some(handle) => {
                let result = rest.build_on(handle);
                assert(self.built_with(Ok(handle), result));
                result
            },
            None => {
                let current = Handle::try_current();
                rest.build_with(current)
            },
        }
    }
}

/// The report channels of one producer of an MPSC channel.
///
/// Each item is enqueued with the report channels that its sender has at that moment. A clone
/// starts with the report channels of its source; later changes to one do not affect the other.
#[verifier::reject_recursive_types(T)]
pub struct MpscSender<T> {
    /// The channel for items that expire.
    pub expiry_channel: Option<Arc<dyn ReportChannel<T>>>,
    /// The channel for items left at shutdown.
    pub shutdown_channel: Option<Arc<dyn ReportChannel<T>>>,
}

impl<T> Clone for MpscSender<T> {
    fn clone(&self) -> (copy: Self)
        ensures
            copy == *self,
    {
        MpscSender {
            expiry_channel: clone_channel(&self.expiry_channel),
            shutdown_channel: clone_channel(&self.shutdown_channel),
        }
    }
}

impl<T> MpscSender<T> {
    /// Replaces the expiry channel. Items already enqueued keep theirs.
    pub fn set_expiry_channel(&mut self, ch: Option<Arc<dyn ReportChannel<T>>>)
        ensures
            *final(self) == (MpscSender { expiry_channel: ch, ..*old(self) }),
    {
        self.expiry_channel = ch;
    }

    /// Replaces the shutdown channel. Items already enqueued keep theirs.
    pub fn set_shutdown_channel(&mut self, ch: Option<Arc<dyn ReportChannel<T>>>)
        ensures
            *final(self) == (MpscSender { shutdown_channel: ch, ..*old(self) }),
    {
        self.shutdown_channel = ch;
    }

    /// Replaces both report channels.
    pub fn set_channels(
        &mut self,
        expiry: Option<Arc<dyn ReportChannel<T>>>,
        shutdown: Option<Arc<dyn ReportChannel<T>>>,
    )
        ensures
            *final(self) == (MpscSender { expiry_channel: expiry, shutdown_channel: shutdown }),
    {
        self.expiry_channel = expiry;
        self.shutdown_channel = shutdown;
    }

    /// Sends an item with the deadline `expires_at`.
    pub fn send_until(&self, ring: &mut ConcurrentRing<T>, item: T, expires_at: Instant) -> (result:
        Result<(), CaducusError<T>>)
        requires
            old(ring).wf(),
        ensures
            final(ring).wf(),
            match old(ring)@.rejection(ChannelMode::Mpsc, item) {
                Some(kind) => {
                    &&& result == Err::<(), CaducusError<T>>(CaducusError { kind })
                    &&& final(ring)@ == old(ring)@
                    &&& final(ring).owed() == old(ring).owed()
                },
                None => {
                    &&& result is Ok
                    &&& final(ring)@ == old(ring)@.pushed_mpsc(
                        item,
                        expires_at,
                        self.expiry_channel,
                        self.shutdown_channel,
                    )
                    &&& final(ring).owed() == all_wakeups()
                },
            },
    {
        let MpscSender { expiry_channel, shutdown_channel } = self.clone();
        ring.send_mpsc_until(item, expires_at, expiry_channel, shutdown_channel)
    }

    /// Sends an item at the time `now`, with the configured TTL.
    pub fn send_at(&self, ring: &mut ConcurrentRing<T>, item: T, now: Instant) -> (result: Result<
        (),
        CaducusError<T>,
    >)
        requires
            old(ring).wf(),
        ensures
            final(ring).wf(),
            match old(ring)@.rejection(ChannelMode::Mpsc, item) {
                Some(kind) => {
                    &&& result == Err::<(), CaducusError<T>>(CaducusError { kind })
                    &&& final(ring)@ == old(ring)@
                    &&& final(ring).owed() == old(ring).owed()
                },
                None => {
                    &&& result is Ok
                    &&& final(ring)@ == old(ring)@.pushed_mpsc(
                        item,
                        deadline_spec(now, clamped_ttl(old(ring)@.ttl)),
                        self.expiry_channel,
                        self.shutdown_channel,
                    )
                    &&& is_deadline(
                        deadline_spec(now, clamped_ttl(old(ring)@.ttl)),
                        now,
                        clamped_ttl(old(ring)@.ttl),
                    )
                    &&& final(ring).owed() == all_wakeups()
                },
            },
    {
        let MpscSender { expiry_channel, shutdown_channel } = self.clone();
        ring.send_mpsc_at(item, now, expiry_channel, shutdown_channel)
    }

    /// Sends an item with the configured TTL and with this sender's report channels.
    pub fn send(&self, ring: &mut ConcurrentRing<T>, item: T) -> (result: Result<
        (),
        CaducusError<T>,
    >)
        requires
            old(ring).wf(),
        ensures
            final(ring).wf(),
            match old(ring)@.rejection(ChannelMode::Mpsc, item) {
                Some(kind) => {
                    &&& result == Err::<(), CaducusError<T>>(CaducusError { kind })
                    &&& final(ring)@ == old(ring)@
                    &&& final(ring).owed() == old(ring).owed()
                },
                None => {
                    &&& result is Ok
                    &&& exists|now: Instant, t: Instant|
                        {
                            &&& is_reading(now)
                            &&& #[trigger] is_deadline(t, now, clamped_ttl(old(ring)@.ttl))
                            &&& final(ring)@ == old(ring)@.pushed_mpsc(
                                item,
                                t,
                                self.expiry_channel,
                                self.shutdown_channel,
                            )
                        }
                    &&& final(ring).owed() == all_wakeups()
                },
            },
    {
        let now: Instant = Instant::now();
        self.send_at(ring, item, now)
    }
}

/// Builder for an MPSC (multi-producer, single-consumer) channel.
///
/// Report channels are optional and are those of the first sender.
#[verifier::reject_recursive_types(T)]
pub struct MpscBuilder<T> {
    /// The buffer capacity.
    pub capacity: usize,
    /// The TTL of an item.
    pub ttl: Duration,
    /// The first sender's channel for items that expire.
    pub expiry_channel: Option<Arc<dyn ReportChannel<T>>>,
    /// The first sender's channel for items left at shutdown.
    pub shutdown_channel: Option<Arc<dyn ReportChannel<T>>>,
    /// The runtime that the reclaimer is to run on.
    pub runtime: Option<Handle>,
}

/// A channel as it is built: its state, its first sender, and the runtime that the reclaimer is
/// to be started on.
#[verifier::reject_recursive_types(T)]
pub struct MpscParts<T> {
    /// The runtime.
    pub runtime: Handle,
    /// The state of the channel.
    pub ring: ConcurrentRing<T>,
    /// The first sender.
    pub sender: MpscSender<T>,
    /// The number of senders.
    pub senders: SenderCount,
}

impl<T> MpscBuilder<T> {
    /// Creates a builder with the given buffer `capacity` and per-item `ttl`.
    pub fn new(capacity: usize, ttl: Duration) -> (builder: Self)
        ensures
            builder.capacity == capacity,
            builder.ttl == ttl,
            builder.expiry_channel is None,
            builder.shutdown_channel is None,
            builder.runtime is None,
    {
        MpscBuilder { capacity, ttl, expiry_channel: None, shutdown_channel: None, runtime: None }
    }

    /// Sets the expiry channel of the first sender.
    pub fn expiry_channel(self, ch: Arc<dyn ReportChannel<T>>) -> (builder: Self)
        ensures
            builder.expiry_channel == Some(ch),
            builder == (MpscBuilder { expiry_channel: builder.expiry_channel, ..self }),
    {
        let handle = Some(ch);
        MpscBuilder { expiry_channel: handle, ..self }
    }

    /// Sets the shutdown channel of the first sender.
    pub fn shutdown_channel(self, ch: Arc<dyn ReportChannel<T>>) -> (builder: Self)
        ensures
            builder.shutdown_channel == Some(ch),
            builder == (MpscBuilder { shutdown_channel: builder.shutdown_channel, ..self }),
    {
        let handle = Some(ch);
        MpscBuilder { shutdown_channel: handle, ..self }
    }

    /// Sets an explicit Tokio runtime handle. Without one the ambient runtime is used.
    pub fn runtime(self, handle: Handle) -> (builder: Self)
        ensures
            builder == (MpscBuilder { runtime: Some(handle), ..self }),
    {
        MpscBuilder { runtime: Some(handle), ..self }
    }

    /// The buffer of the channel that is built: it holds no report channels of its own.
    pub open spec fn buffer(self) -> RingView<T> {
        RingView::empty(
            self.capacity as nat,
            duration_nanos(self.ttl),
            ChannelMode::Mpsc,
            None,
            None,
        )
    }

    /// The first sender of the channel that is built.
    pub open spec fn first_sender(self) -> MpscSender<T> {
        MpscSender { expiry_channel: self.expiry_channel, shutdown_channel: self.shutdown_channel }
    }

    /// What building the channel on the runtime `runtime` gives: `InvalidArgument` exactly if the
    /// TTL is outside the accepted range, otherwise the channel.
    pub open spec fn built_on(
        self,
        runtime: Handle,
        result: Result<MpscParts<T>, CaducusError>,
    ) -> bool {
        match result {
            Ok(parts) => {
                &&& ttl_in_range(duration_nanos(self.ttl))
                &&& parts.runtime == runtime
                &&& parts.ring.wf()
                &&& parts.ring.owed() == no_wakeups()
                &&& parts.ring@ == self.buffer()
                &&& parts.sender == self.first_sender()
                &&& parts.senders@ == 1
            },
            Err(e) => {
                &&& !ttl_in_range(duration_nanos(self.ttl))
                &&& e.kind is InvalidArgument
            },
        }
    }

    /// What building the channel gives, where `current` is the outcome of asking for the ambient
    /// runtime. The runtime is resolved first: without one the answer is `NoRuntime`, whatever the
    /// TTL.
    pub open spec fn built_with(
        self,
        current: Result<Handle, TryCurrentError>,
        result: Result<MpscParts<T>, CaducusError>,
    ) -> bool {
        match (self.runtime, current) {
            (Some(handle), _) => self.built_on(handle, result),
            (None, Ok(handle)) => self.built_on(handle, result),
            (None, Err(_)) => result matches Err(e) && e.kind is NoRuntime,
        }
    }

    /// Builds the channel on the runtime `runtime`.
    pub fn build_on(self, runtime: Handle) -> (result: Result<MpscParts<T>, CaducusError>)
        ensures
            self.built_on(runtime, result),
    {
        match ConcurrentRing::new(self.capacity, self.ttl, ChannelMode::Mpsc, None, None) {
            Ok(ring) => Ok(
                MpscParts {
                    runtime,
                    ring,
                    sender: MpscSender {
                        expiry_channel: self.expiry_channel,
                        shutdown_channel: self.shutdown_channel,
                    },
                    senders: SenderCount::new(),
                },
            ),
            Err(e) => Err(e),
        }
    }

    /// Builds the channel on the runtime that was set, otherwise on the ambient one, which
    /// `current` is the outcome of asking for. Fails with `NoRuntime` if there is neither, and
    /// otherwise with `InvalidArgument` if the TTL is outside the accepted range.
    pub fn build_with(self, current: Result<Handle, TryCurrentError>) -> (result: Result<
        MpscParts<T>,
        CaducusError,
    >)
        ensures
            self.built_with(current, result),
    {
        let MpscBuilder { capacity, ttl, expiry_channel, shutdown_channel, runtime } = self;
        match choose_runtime(runtime, current) {
            Ok(handle) => {
                let rest = MpscBuilder {
                    capacity,
                    ttl,
                    expiry_channel,
                    shutdown_channel,
                    runtime: None,
                };
                rest.build_on(handle)
            },
            Err(e) => Err(e),
        }
    }

    /// Builds the channel on the runtime that was set, otherwise on that of the caller. Fails with
    /// `NoRuntime` if there is neither, and otherwise with `InvalidArgument` if the TTL is outside
    /// the accepted range.
    pub fn build(self) -> (result: Result<MpscParts<T>, CaducusError>)
        ensures
            self.runtime matches Some(handle) ==> self.built_on(handle, result),
            exists|current: Result<Handle, TryCurrentError>|
                {
                    &&& self.runtime is None ==> is_ambient(current)
                    &&& #[trigger] self.built_with(current, result)
                },
    {
        let MpscBuilder { capacity, ttl, expiry_channel, shutdown_channel, runtime } = self;
        let rest = MpscBuilder { capacity, ttl, expiry_channel, shutdown_channel, runtime: None };
        match runtime {
            Some(handle) => {
                let result = rest.build_on(handle);
                assert(self.built_with(Ok(handle), result));
                result
            },
            None => {
                let current = Handle::try_current();
                rest.build_with(current)
            },
        }
    }
}

/// The number of senders after one of `n` has been cloned. It wraps around at the largest `usize`.
pub open spec fn acquired(n: nat) -> nat {
    if n == usize::MAX {
        0
    } else {
        n + 1
    }
}

/// The number of senders after one of `n` has been dropped.
pub open spec fn released(n: nat) -> nat {
    if n == 0 {
        usize::MAX as nat
    } else {
        (n - 1) as nat
    }
}

/// The number of senders of an MPSC channel. The channel is shut down when the last one is
/// dropped.
pub struct SenderCount {
    live: usize,
}

impl View for SenderCount {
    type V = nat;

    closed spec fn view(&self) -> nat {
        self.live as nat
    }
}

impl SenderCount {
    /// One sender.
    pub fn new() -> (count: Self)
        ensures
            count@ == 1,
    {
        SenderCount { live: 1 }
    }

    /// Counts a clone. The count wraps around at the largest `usize`.
    pub fn acquire(&mut self)
        ensures
            final(self)@ == acquired(old(self)@),
    {
        self.live = self.live.wrapping_add(1);
    }

    /// Counts a drop. Returns whether it was that of the last sender.
    pub fn release(&mut self) -> (last: bool)
        ensures
            last == (old(self)@ == 1),
            final(self)@ == released(old(self)@),
    {
        let last: bool = self.live == 1;
        self.live = self.live.wrapping_sub(1);
        last
    }
}

/// What becomes of an item sent at `now` with a TTL of its own, of `ttl` nanoseconds: it gets a
/// deadline, or is rejected if the TTL is outside the accepted range.
pub open spec fn resolved_ttl<T>(item: T, ttl: nat, now: Instant) -> Result<
    (T, Instant),
    CaducusError<T>,
> {
    if ttl_in_range(ttl) {
        Ok((item, deadline_spec(now, ttl)))
    } else {
        Err(CaducusError { kind: CaducusErrorKind::InvalidTTL(item) })
    }
}

/// What becomes of an item sent at `now` with a deadline of its own: it keeps that deadline, or is
/// rejected if the deadline has already passed.
pub open spec fn resolved_deadline<T>(item: T, deadline: Instant, now: Instant) -> Result<
    (T, Instant),
    CaducusError<T>,
> {
    if instant_nanos(deadline) <= instant_nanos(now) {
        Err(CaducusError { kind: CaducusErrorKind::InvalidTTL(item) })
    } else {
        Ok((item, deadline))
    }
}

/// The deadline of an item sent at `now` with a TTL of its own. A TTL outside the accepted range
/// is rejected with `InvalidTTL(item)`.
pub fn resolve_ttl_at<T>(item: T, ttl: Duration, now: Instant) -> (result: Result<
    (T, Instant),
    CaducusError<T>,
>)
    ensures
        result == resolved_ttl(item, duration_nanos(ttl), now),
        result matches Ok((_, deadline)) ==> is_deadline(deadline, now, duration_nanos(ttl)),
{
    if is_valid_ttl(ttl) {
        Ok((item, deadline_after(now, ttl)))
    } else {
        Err(CaducusError { kind: CaducusErrorKind::InvalidTTL(item) })
    }
}

/// The deadline of an item sent now with a TTL of its own.
pub fn resolve_ttl<T>(item: T, ttl: Duration) -> (result: Result<(T, Instant), CaducusError<T>>)
    ensures
        exists|now: Instant|
            {
                &&& is_reading(now)
                &&& result == #[trigger] resolved_ttl(item, duration_nanos(ttl), now)
                &&& result matches Ok((_, deadline)) ==> is_deadline(
                    deadline,
                    now,
                    duration_nanos(ttl),
                )
            },
{
    let now: Instant = Instant::now();
    resolve_ttl_at(item, ttl, now)
}

/// Accepts a deadline for an item sent at `now`. One that has already passed is rejected with
/// `InvalidTTL(item)`.
pub fn resolve_deadline_at<T>(item: T, deadline: Instant, now: Instant) -> (result: Result<
    (T, Instant),
    CaducusError<T>,
>)
    ensures
        result == resolved_deadline(item, deadline, now),
{
    if at_or_before(deadline, now) {
        Err(CaducusError { kind: CaducusErrorKind::InvalidTTL(item) })
    } else {
        Ok((item, deadline))
    }
}

/// Accepts a deadline for an item sent now.
pub fn resolve_deadline<T>(item: T, deadline: Instant) -> (result: Result<
    (T, Instant),
    CaducusError<T>,
>)
    ensures
        exists|now: Instant|
            is_reading(now) && result == #[trigger] resolved_deadline(item, deadline, now),
{
    let now: Instant = Instant::now();
    resolve_deadline_at(item, deadline, now)
}

} // verus!
