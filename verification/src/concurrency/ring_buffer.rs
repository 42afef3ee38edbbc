//! The ring buffer: storage of the channel.

use std::sync::Arc;
use std::time::{Duration, Instant};
use vstd::prelude::*;

use crate::clock::{
    at_or_before, clamp_ttl, clamped_ttl, deadline_after, deadline_spec, duration_nanos,
    instant_nanos, is_deadline, is_reading, is_valid_ttl, ttl_in_range,
};
use crate::concurrency::ring_view::{
    compacted, expired_items, has_gap, is_expired, is_monotonic, lemma_expired_prefix,
    lemma_filter_len, lemma_filter_members, lemma_filter_push, lemma_has_gap_push,
    lemma_live_channels, lemma_monotonic_push, lemma_no_gap, lemma_soonest_is_head, live_items,
    soonest, RingView,
};
use crate::error::{CaducusError, CaducusErrorKind};

verus! {

/// Report channel for items that expired or that were left in the buffer at shutdown.
///
/// The storage layer holds handles to report channels and never calls them.
pub trait ReportChannel<T>: Send + Sync + 'static {
    /// Hands the item to the report sink. Returns the item as `Err` if the sink cannot accept
    /// it (for example because it is closed).
    fn send(&self, item: T) -> Result<(), T>;
}

/// Operating mode, set at construction and immutable.
#[derive(Debug, Clone, Copy, PartialEq, Eq, Structural)]
pub enum ChannelMode {
    /// Single producer.
    Spsc,
    /// Multiple producers.
    Mpsc,
}

/// An item that has left the ring buffer.
///
/// Carries the payload and all associated metadata, so that the caller can decide on reporting
/// after the item has left storage.
#[verifier::reject_recursive_types(T)]
pub struct PopResult<T> {
    /// The payload.
    pub item: T,
    /// The absolute expiry deadline.
    pub expires_at: Instant,
    /// Where the item is reported if it expired.
    pub expiry_channel: Option<Arc<dyn ReportChannel<T>>>,
    /// Where the item is reported if it was left at shutdown.
    pub shutdown_channel: Option<Arc<dyn ReportChannel<T>>>,
}

/// A single slot of the ring buffer: one item with its metadata, or nothing.
#[verifier::reject_recursive_types(T)]
struct Slot<T> {
    entry: Option<PopResult<T>>,
}

impl<T> Slot<T> {
    fn empty() -> (slot: Self)
        ensures
            slot.entry is None,
    {
        Slot { entry: None }
    }

    fn is_occupied(&self) -> (occupied: bool)
        ensures
            occupied == (self.entry is Some),
    {
        self.entry.is_some()
    }

    fn populate(
        &mut self,
        item: T,
        expires_at: Instant,
        expiry_channel: Option<Arc<dyn ReportChannel<T>>>,
        shutdown_channel: Option<Arc<dyn ReportChannel<T>>>,
    )
        ensures
            final(self).entry == Some(
                (PopResult { item, expires_at, expiry_channel, shutdown_channel }),
            ),
    {
        self.entry = Some(PopResult { item, expires_at, expiry_channel, shutdown_channel });
    }

    fn take(&mut self) -> (taken: Option<PopResult<T>>)
        ensures
            taken == old(self).entry,
            final(self).entry is None,
    {
        self.entry.take()
    }
}

/// The index of the `i`th slot counted from `head`, in a circle of `cap` slots.
spec fn slot_index(head: int, i: int, cap: int) -> int {
    if head + i < cap {
        head + i
    } else {
        head + i - cap
    }
}

/// The index of the `i`th slot counted from `head`, in a circle of `cap` slots.
fn wrap(head: usize, i: usize, cap: usize) -> (index: usize)
    requires
        head < cap,
        i <= cap,
    ensures
        index == slot_index(head as int, i as int, cap as int),
        index < cap,
{
    if i < cap - head {
        head + i
    } else {
        i - (cap - head)
    }
}

/// A stored item as it is handed out: in SPSC mode with the ring-level report channels.
spec fn routed<T>(
    mode: ChannelMode,
    expiry_channel: Option<Arc<dyn ReportChannel<T>>>,
    shutdown_channel: Option<Arc<dyn ReportChannel<T>>>,
    stored: PopResult<T>,
) -> PopResult<T> {
    if mode is Spsc {
        PopResult { expiry_channel, shutdown_channel, ..stored }
    } else {
        stored
    }
}

/// Another handle to the same report channel.
pub(crate) fn clone_channel<T>(ch: &Option<Arc<dyn ReportChannel<T>>>) -> (copy: Option<
    Arc<dyn ReportChannel<T>>,
>)
    ensures
        copy == *ch,
{
    let copy = match ch {
        Some(handle) => Some(handle.clone()),
        None => None,
    };
    copy
}

/// Vec-backed circular buffer for bounded channel storage.
///
/// All operations are synchronous. The buffer knows nothing about wakeups or notifications.
/// Concurrency protection is the caller's responsibility.
#[verifier::reject_recursive_types(T)]
pub struct Ring<T> {
    slots: Vec<Slot<T>>,
    head: usize,
    tail: usize,
    len: usize,
    target_capacity: usize,
    /// The TTL as it was set. Deadlines are computed from [`Ring::ttl`], which clamps it.
    pub ttl: Duration,
    shutdown: bool,
    mode: ChannelMode,
    expiry_channel: Option<Arc<dyn ReportChannel<T>>>,
    shutdown_channel: Option<Arc<dyn ReportChannel<T>>>,
    ttl_reduced: bool,
}

impl<T> View for Ring<T> {
    type V = RingView<T>;

    closed spec fn view(&self) -> RingView<T> {
        RingView {
            mode: self.mode,
            entries: self.entries(),
            capacity: self.slots@.len(),
            target_capacity: self.target_capacity as nat,
            ttl: duration_nanos(self.ttl),
            shutdown: self.shutdown,
            expiry_channel: self.expiry_channel,
            shutdown_channel: self.shutdown_channel,
            ttl_reduced: self.ttl_reduced,
        }
    }
}

impl<T> Ring<T> {
    /// The `i`th slot counted from the head.
    spec fn slot(&self, i: int) -> Slot<T> {
        self.slots@[slot_index(self.head as int, i, self.slots@.len() as int)]
    }

    /// The items in FIFO order, as they are handed out.
    spec fn entries(&self) -> Seq<PopResult<T>> {
        Seq::new(
            self.len as nat,
            |i: int|
                routed(
                    self.mode,
                    self.expiry_channel,
                    self.shutdown_channel,
                    self.slot(i).entry->0,
                ),
        )
    }

    /// The items occupy the slots from the head on, and the other slots are empty. In SPSC mode
    /// no slot holds a report channel.
    pub closed spec fn storage_ok(&self) -> bool {
        &&& self.head < self.slots@.len()
        &&& self.len <= self.slots@.len()
        &&& self.tail == slot_index(self.head as int, self.len as int, self.slots@.len() as int)
        &&& forall|i: int|
            0 <= i < self.slots@.len() ==> ((#[trigger] self.slot(i)).entry is Some <==> i
                < self.len)
        &&& self.mode is Spsc ==> forall|i: int|
            0 <= i < self.len ==> (#[trigger] self.slot(i)).entry->0.expiry_channel is None
                && self.slot(i).entry->0.shutdown_channel is None
    }

    /// Whether the buffer is in a state that its operations leave it in.
    pub open spec fn wf(&self) -> bool {
        self.storage_ok() && self@.inv()
    }

    /// The view shows the storage as it is: the capacity is the number of slots, the items are those
    /// in the slots from the head on, around the end of the storage, and each setting is the stored
    /// one. In SPSC mode the items show the channels of the ring, in MPSC mode their own.
    proof fn law_view_is_the_storage(&self, i: int)
        ensures
            self@.capacity == self.slots@.len(),
            self@.target_capacity == self.target_capacity,
            self@.ttl == duration_nanos(self.ttl),
            self@.shutdown == self.shutdown,
            self@.mode == self.mode,
            self@.expiry_channel == self.expiry_channel,
            self@.shutdown_channel == self.shutdown_channel,
            self@.ttl_reduced == self.ttl_reduced,
            self@.entries.len() == self.len,
            0 <= i < self.len ==> {
                let at = if self.head + i < self.slots@.len() {
                    self.head + i
                } else {
                    self.head + i - self.slots@.len()
                };
                let stored = self.slots@[at].entry->0;
                let shown = self@.entries[i];
                &&& shown.item == stored.item
                &&& shown.expires_at == stored.expires_at
                &&& shown.expiry_channel == if self.mode is Spsc {
                    self.expiry_channel
                } else {
                    stored.expiry_channel
                }
                &&& shown.shutdown_channel == if self.mode is Spsc {
                    self.shutdown_channel
                } else {
                    stored.shutdown_channel
                }
            },
    {
    }

    /// `other` differs from this buffer at most in its slots.
    spec fn same_settings(&self, other: &Ring<T>) -> bool {
        &&& self.target_capacity == other.target_capacity
        &&& self.ttl == other.ttl
        &&& self.shutdown == other.shutdown
        &&& self.mode == other.mode
        &&& self.expiry_channel == other.expiry_channel
        &&& self.shutdown_channel == other.shutdown_channel
        &&& self.ttl_reduced == other.ttl_reduced
    }

    /// Settings other than the mode and the ring-level channels do not affect the items.
    proof fn lemma_same_storage(&self, other: &Ring<T>)
        requires
            self.storage_ok(),
            other.slots == self.slots,
            other.head == self.head,
            other.tail == self.tail,
            other.len == self.len,
            other.mode == self.mode,
            other.expiry_channel == self.expiry_channel,
            other.shutdown_channel == self.shutdown_channel,
        ensures
            other.storage_ok(),
            other.entries() == self.entries(),
    {
        assert forall|i: int| other.slot(i) == self.slot(i) by {}
        assert(other.entries() =~= self.entries());
    }

    /// Creates a new ring buffer with the given capacity, TTL, mode, and ring-level channels.
    ///
    /// Capacity is clamped to a minimum of 1. The TTL must be within the inclusive range from
    /// one millisecond to one year.
    pub fn new(
        capacity: usize,
        ttl: Duration,
        mode: ChannelMode,
        expiry_channel: Option<Arc<dyn ReportChannel<T>>>,
        shutdown_channel: Option<Arc<dyn ReportChannel<T>>>,
    ) -> (result: Result<Self, CaducusError>)
        ensures
            match result {
                Ok(ring) => {
                    &&& ttl_in_range(duration_nanos(ttl))
                    &&& ring.wf()
                    &&& ring@ == RingView::empty(
                        capacity as nat,
                        duration_nanos(ttl),
                        mode,
                        expiry_channel,
                        shutdown_channel,
                    )
                },
                Err(e) => {
                    &&& !ttl_in_range(duration_nanos(ttl))
                    &&& e.kind is InvalidArgument
                },
            },
    {
        if let Err(e) = Self::validate_ttl(ttl) {
            return Err(e);
        }
        let capacity: usize = if capacity == 0 {
            1
        } else {
            capacity
        };
        let mut slots: Vec<Slot<T>> = Vec::with_capacity(capacity);
        while slots.len() < capacity
            invariant
                slots.len() <= capacity,
                forall|i: int| 0 <= i < slots.len() ==> (#[trigger] slots@[i]).entry is None,
            decreases capacity - slots.len(),
        {
            slots.push(Slot::empty());
        }
        let ring = Ring {
            slots,
            head: 0,
            tail: 0,
            len: 0,
            target_capacity: capacity,
            ttl,
            shutdown: false,
            mode,
            expiry_channel,
            shutdown_channel,
            ttl_reduced: false,
        };
        assert(ring@.entries =~= Seq::empty());
        Ok(ring)
    }

    /// Accepts a TTL within the inclusive range from one millisecond to one year.
    fn validate_ttl(ttl: Duration) -> (result: Result<(), CaducusError>)
        ensures
            result is Ok <==> ttl_in_range(duration_nanos(ttl)),
            result matches Err(e) ==> e.kind is InvalidArgument,
    {
        if is_valid_ttl(ttl) {
            Ok(())
        } else {
            Err(CaducusError { kind: CaducusErrorKind::InvalidArgument })
        }
    }

    /// Enqueues an item with the deadline `expires_at`: rejects it if the buffer is shut down
    /// or full, otherwise populates the slot at the tail.
    fn push_common(
        &mut self,
        item: T,
        expires_at: Instant,
        expiry_channel: Option<Arc<dyn ReportChannel<T>>>,
        shutdown_channel: Option<Arc<dyn ReportChannel<T>>>,
    ) -> (result: Result<(), CaducusError<T>>)
        requires
            old(self).wf(),
            old(self)@.mode is Spsc ==> expiry_channel is None && shutdown_channel is None,
        ensures
            final(self).wf(),
            match old(self)@.rejection(old(self)@.mode, item) {
                Some(kind) => {
                    &&& result == Err::<(), CaducusError<T>>(CaducusError { kind })
                    &&& final(self)@ == old(self)@
                },
                None => {
                    &&& result is Ok
                    &&& final(self)@ == if old(self)@.mode is Spsc {
                        old(self)@.pushed_spsc(item, expires_at)
                    } else {
                        old(self)@.pushed_mpsc(item, expires_at, expiry_channel, shutdown_channel)
                    }
                },
            },
    {
        if self.shutdown {
            return Err(CaducusError { kind: CaducusErrorKind::Shutdown(item) });
        }
        if self.len >= self.target_capacity {
            return Err(CaducusError { kind: CaducusErrorKind::Full(item) });
        }
        let cap: usize = self.slots.len();
        if self.len > 0 {
            let newest: usize = wrap(self.head, self.len - 1, cap);
            assert(self.slots@[newest as int] == self.slot(self.len - 1));
            if let Some(entry) = &self.slots[newest].entry {
                if !at_or_before(entry.expires_at, expires_at) {
                    self.ttl_reduced = true;
                }
            }
        }
        let tail: usize = self.tail;
        self.slots[tail].populate(item, expires_at, expiry_channel, shutdown_channel);
        self.tail = wrap(self.tail, 1, cap);
        self.len = self.len + 1;
        proof {
            let n = old(self).len as int;
            assert forall|i: int| 0 <= i < cap && i != n implies self.slot(i) == old(self).slot(
                i,
            ) by {}
            assert(self.slot(n).entry == Some(
                PopResult { item, expires_at, expiry_channel, shutdown_channel },
            ));
            let e = routed(
                self.mode,
                self.expiry_channel,
                self.shutdown_channel,
                self.slot(n).entry->0,
            );
            assert(self@.entries =~= old(self)@.entries.push(e));
        }
        Ok(())
    }

    /// SPSC push of an item with the deadline `expires_at`. Rejects with `InvalidPattern(item)`
    /// in MPSC mode.
    pub fn try_push_spsc_until(&mut self, item: T, expires_at: Instant) -> (result: Result<
        (),
        CaducusError<T>,
    >)
        requires
            old(self).wf(),
        ensures
            final(self).wf(),
            match old(self)@.rejection(ChannelMode::Spsc, item) {
                Some(kind) => {
                    &&& result == Err::<(), CaducusError<T>>(CaducusError { kind })
                    &&& final(self)@ == old(self)@
                },
                None => {
                    &&& result is Ok
                    &&& final(self)@ == old(self)@.pushed_spsc(item, expires_at)
                },
            },
    {
        if self.mode != ChannelMode::Spsc {
            return Err(CaducusError { kind: CaducusErrorKind::InvalidPattern(item) });
        }
        self.push_common(item, expires_at, None, None)
    }

    /// SPSC push at the time `now`. The deadline is computed from the ring's own TTL.
    pub fn try_push_spsc_at(&mut self, item: T, now: Instant) -> (result: Result<
        (),
        CaducusError<T>,
    >)
        requires
            old(self).wf(),
        ensures
            final(self).wf(),
            match old(self)@.rejection(ChannelMode::Spsc, item) {
                Some(kind) => {
                    &&& result == Err::<(), CaducusError<T>>(CaducusError { kind })
                    &&& final(self)@ == old(self)@
                },
                None => {
                    &&& result is Ok
                    &&& final(self)@ == old(self)@.pushed_spsc(
                        item,
                        deadline_spec(now, clamped_ttl(old(self)@.ttl)),
                    )
                    &&& is_deadline(
                        deadline_spec(now, clamped_ttl(old(self)@.ttl)),
                        now,
                        clamped_ttl(old(self)@.ttl),
                    )
                },
            },
    {
        let expires_at: Instant = deadline_after(now, self.ttl());
        self.try_push_spsc_until(item, expires_at)
    }

    /// SPSC push. Rejects with `InvalidPattern(item)` in MPSC mode, with `Shutdown(item)` if
    /// the buffer is shut down and with `Full(item)` at capacity.
    ///
    /// The deadline is computed from the current time and the ring's own TTL.
    pub fn try_push_spsc(&mut self, item: T) -> (result: Result<(), CaducusError<T>>)
        requires
            old(self).wf(),
        ensures
            final(self).wf(),
            match old(self)@.rejection(ChannelMode::Spsc, item) {
                Some(kind) => {
                    &&& result == Err::<(), CaducusError<T>>(CaducusError { kind })
                    &&& final(self)@ == old(self)@
                },
                None => {
                    &&& result is Ok
                    &&& exists|now: Instant, t: Instant|
                        {
                            &&& is_reading(now)
                            &&& #[trigger] is_deadline(t, now, clamped_ttl(old(self)@.ttl))
                            &&& final(self)@ == old(self)@.pushed_spsc(item, t)
                        }
                },
            },
    {
        let now: Instant = Instant::now();
        self.try_push_spsc_at(item, now)
    }

    /// MPSC push of an item with the deadline `expires_at`. Rejects with `InvalidPattern(item)`
    /// in SPSC mode.
    pub fn try_push_mpsc_until(
        &mut self,
        item: T,
        expires_at: Instant,
        expiry_channel: Option<Arc<dyn ReportChannel<T>>>,
        shutdown_channel: Option<Arc<dyn ReportChannel<T>>>,
    ) -> (result: Result<(), CaducusError<T>>)
        requires
            old(self).wf(),
        ensures
            final(self).wf(),
            match old(self)@.rejection(ChannelMode::Mpsc, item) {
                Some(kind) => {
                    &&& result == Err::<(), CaducusError<T>>(CaducusError { kind })
                    &&& final(self)@ == old(self)@
                },
                None => {
                    &&& result is Ok
                    &&& final(self)@ == old(self)@.pushed_mpsc(
                        item,
                        expires_at,
                        expiry_channel,
                        shutdown_channel,
                    )
                },
            },
    {
        if self.mode != ChannelMode::Mpsc {
            return Err(CaducusError { kind: CaducusErrorKind::InvalidPattern(item) });
        }
        self.push_common(item, expires_at, expiry_channel, shutdown_channel)
    }

    /// MPSC push at the time `now`. The deadline is computed from the ring's own TTL.
    pub fn try_push_mpsc_at(
        &mut self,
        item: T,
        now: Instant,
        expiry_channel: Option<Arc<dyn ReportChannel<T>>>,
        shutdown_channel: Option<Arc<dyn ReportChannel<T>>>,
    ) -> (result: Result<(), CaducusError<T>>)
        requires
            old(self).wf(),
        ensures
            final(self).wf(),
            match old(self)@.rejection(ChannelMode::Mpsc, item) {
                Some(kind) => {
                    &&& result == Err::<(), CaducusError<T>>(CaducusError { kind })
                    &&& final(self)@ == old(self)@
                },
                None => {
                    &&& result is Ok
                    &&& final(self)@ == old(self)@.pushed_mpsc(
                        item,
                        deadline_spec(now, clamped_ttl(old(self)@.ttl)),
                        expiry_channel,
                        shutdown_channel,
                    )
                    &&& is_deadline(
                        deadline_spec(now, clamped_ttl(old(self)@.ttl)),
                        now,
                        clamped_ttl(old(self)@.ttl),
                    )
                },
            },
    {
        let expires_at: Instant = deadline_after(now, self.ttl());
        self.try_push_mpsc_until(item, expires_at, expiry_channel, shutdown_channel)
    }

    /// MPSC push. Rejects with `InvalidPattern(item)` in SPSC mode, with `Shutdown(item)` if
    /// the buffer is shut down and with `Full(item)` at capacity.
    ///
    /// The item keeps the given report channels. The deadline is computed from the current time
    /// and the ring's own TTL.
    pub fn try_push_mpsc(
        &mut self,
        item: T,
        expiry_channel: Option<Arc<dyn ReportChannel<T>>>,
        shutdown_channel: Option<Arc<dyn ReportChannel<T>>>,
    ) -> (result: Result<(), CaducusError<T>>)
        requires
            old(self).wf(),
        ensures
            final(self).wf(),
            match old(self)@.rejection(ChannelMode::Mpsc, item) {
                Some(kind) => {
                    &&& result == Err::<(), CaducusError<T>>(CaducusError { kind })
                    &&& final(self)@ == old(self)@
                },
                None => {
                    &&& result is Ok
                    &&& exists|now: Instant, t: Instant|
                        {
                            &&& is_reading(now)
                            &&& #[trigger] is_deadline(t, now, clamped_ttl(old(self)@.ttl))
                            &&& final(self)@ == old(self)@.pushed_mpsc(
                                item,
                                t,
                                expiry_channel,
                                shutdown_channel,
                            )
                        }
                },
            },
    {
        let now: Instant = Instant::now();
        self.try_push_mpsc_at(item, now, expiry_channel, shutdown_channel)
    }

    /// Whether deferred compaction should run.
    fn should_compact(&self) -> (yes: bool)
        ensures
            yes == (self.target_capacity < self.slots@.len() && self.len <= self.target_capacity),
    {
        self.target_capacity < self.slots.len() && self.len <= self.target_capacity
    }

    /// Compacts the buffer to the target capacity.
    fn compact(&mut self)
        requires
            old(self).storage_ok(),
            1 <= old(self).target_capacity,
            old(self).len <= old(self).target_capacity,
        ensures
            final(self).storage_ok(),
            final(self)@ == (RingView { capacity: old(self)@.target_capacity, ..old(self)@ }),
    {
        self.linearize(self.target_capacity);
    }

    /// Moves the items into a new Vec of the given size, preserving FIFO order. The head is at
    /// index 0 afterwards.
    fn linearize(&mut self, new_capacity: usize)
        requires
            old(self).storage_ok(),
            1 <= new_capacity,
            old(self).len <= new_capacity,
        ensures
            final(self).storage_ok(),
            final(self)@ == (RingView {
                capacity: new_capacity as nat,
                target_capacity: new_capacity as nat,
                ..old(self)@
            }),
    {
        let mut new_slots: Vec<Slot<T>> = Vec::with_capacity(new_capacity);
        let old_len: usize = self.slots.len();
        let len: usize = self.len;
        let mut i: usize = 0;
        while i < len
            invariant
                i <= len,
                len == old(self).len,
                len <= new_capacity,
                len <= old_len,
                old(self).storage_ok(),
                old_len == old(self).slots@.len(),
                self.head == old(self).head,
                self.len == old(self).len,
                self.slots@.len() == old_len,
                self.same_settings(old(self)),
                forall|j: int| i <= j < old_len ==> #[trigger] self.slot(j) == old(self).slot(j),
                new_slots@.len() == i,
                forall|j: int| 0 <= j < i ==> #[trigger] new_slots@[j] == old(self).slot(j),
            decreases len - i,
        {
            let index: usize = wrap(self.head, i, old_len);
            let mut slot: Slot<T> = Slot::empty();
            let ghost before = *self;
            assert(self.slots@[index as int] == self.slot(i as int));
            std::mem::swap(&mut self.slots[index], &mut slot);
            new_slots.push(slot);
            assert forall|j: int| i < j < old_len implies #[trigger] self.slot(j) == before.slot(
                j,
            ) by {}
            i = i + 1;
        }
        while new_slots.len() < new_capacity
            invariant
                len <= new_slots@.len() <= new_capacity,
                forall|j: int| 0 <= j < len ==> #[trigger] new_slots@[j] == old(self).slot(j),
                forall|j: int|
                    len <= j < new_slots@.len() ==> (#[trigger] new_slots@[j]).entry is None,
            decreases new_capacity - new_slots.len(),
        {
            new_slots.push(Slot::empty());
        }
        self.slots = new_slots;
        self.head = 0;
        self.tail = if len == new_capacity {
            0
        } else {
            len
        };
        self.target_capacity = new_capacity;
        proof {
            assert forall|j: int| 0 <= j < new_capacity implies self.slot(j) == new_slots@[j] by {}
            assert forall|j: int| 0 <= j < len implies self.slot(j) == old(self).slot(j) by {}
            assert(self@.entries =~= old(self)@.entries);
        }
    }

    /// Takes the item at the head out of its slot and advances the head.
    fn take_head(&mut self) -> (taken: Option<PopResult<T>>)
        requires
            old(self).storage_ok(),
            old(self).len > 0,
        ensures
            final(self).storage_ok(),
            taken == Some(old(self)@.entries[0]),
            final(self)@ == (RingView { entries: old(self)@.entries.drop_first(), ..old(self)@ }),
    {
        let cap: usize = self.slots.len();
        let head: usize = self.head;
        assert(self.slots@[head as int] == self.slot(0));
        let stored = self.slots[head].take();
        self.head = wrap(head, 1, cap);
        self.len = self.len - 1;
        proof {
            assert forall|i: int| 0 <= i < cap - 1 implies self.slot(i) == old(self).slot(
                i + 1,
            ) by {}
            assert(self.slot(cap - 1).entry is None);
            assert(self@.entries =~= old(self)@.entries.drop_first());
        }
        match stored {
            Some(pop) => Some(self.with_channels(pop)),
            None => None,
        }
    }

    /// A stored item as it is handed out: in SPSC mode with the ring-level report channels.
    fn with_channels(&self, stored: PopResult<T>) -> (pop: PopResult<T>)
        ensures
            pop == routed(self.mode, self.expiry_channel, self.shutdown_channel, stored),
    {
        if self.mode == ChannelMode::Spsc {
            PopResult {
                item: stored.item,
                expires_at: stored.expires_at,
                expiry_channel: clone_channel(&self.expiry_channel),
                shutdown_channel: clone_channel(&self.shutdown_channel),
            }
        } else {
            stored
        }
    }

    /// Removes and returns the head item with its metadata.
    ///
    /// In SPSC mode the result carries the ring-level channel handles, in MPSC mode those that
    /// the item was enqueued with. Returns `None` if the buffer is empty. If a deferred shrink
    /// is pending and occupancy has dropped to the target capacity, the buffer compacts.
    pub fn try_pop(&mut self) -> (result: Option<PopResult<T>>)
        requires
            old(self).wf(),
        ensures
            final(self).wf(),
            result == old(self)@.head(),
            final(self)@ == old(self)@.popped(),
    {
        if self.len == 0 {
            return None;
        }
        let result = self.take_head();
        if self.should_compact() {
            self.compact();
        }
        result
    }

    /// Returns the soonest expiry deadline among the items, or `None` when empty.
    ///
    /// While the deadlines are known to be in FIFO order the head has the soonest. Otherwise
    /// all items are scanned.
    pub fn peek_expires_at(&self) -> (deadline: Option<Instant>)
        requires
            self.wf(),
        ensures
            deadline == soonest(self@.entries),
    {
        if self.len == 0 {
            return None;
        }
        if !self.ttl_reduced {
            proof {
                lemma_soonest_is_head(self@.entries);
            }
            return self.head_expires_at();
        }
        let cap: usize = self.slots.len();
        let mut min_deadline: Option<Instant> = None;
        let mut i: usize = 0;
        while i < self.len
            invariant
                self.wf(),
                cap == self.slots@.len(),
                i <= self.len,
                min_deadline == soonest(self@.entries.take(i as int)),
            decreases self.len - i,
        {
            let index: usize = wrap(self.head, i, cap);
            assert(self.slots@[index as int] == self.slot(i as int));
            assert(self@.entries.take(i + 1).drop_last() =~= self@.entries.take(i as int));
            if let Some(entry) = &self.slots[index].entry {
                let d: Instant = entry.expires_at;
                min_deadline = match min_deadline {
                    None => Some(d),
                    Some(t) => if at_or_before(t, d) {
                        Some(t)
                    } else {
                        Some(d)
                    },
                };
            }
            i = i + 1;
        }
        assert(self@.entries.take(i as int) =~= self@.entries);
        min_deadline
    }

    /// Returns the deadline of the head item, or `None` when empty.
    pub fn head_expires_at(&self) -> (deadline: Option<Instant>)
        requires
            self.wf(),
        ensures
            deadline == match self@.head() {
                Some(e) => Some(e.expires_at),
                None => None,
            },
    {
        assert(self.slots@[self.head as int] == self.slot(0));
        match &self.slots[self.head].entry {
            Some(entry) => Some(entry.expires_at),
            None => None,
        }
    }

    /// Pops expired items and returns them in FIFO order.
    ///
    /// While the deadlines are known to be in FIFO order, only the head prefix is looked at.
    /// Otherwise every item is, the survivors are moved together where that left gaps among
    /// them, and the deadlines are taken to be in order again if those of the survivors are.
    pub fn drain_expired(&mut self, now: Instant) -> (items: Vec<PopResult<T>>)
        requires
            old(self).wf(),
        ensures
            final(self).wf(),
            items@ == expired_items(old(self)@.entries, now),
            final(self)@ == old(self)@.drained(now),
    {
        if self.ttl_reduced {
            self.drain_scan(now)
        } else {
            self.drain_prefix(now)
        }
    }

    /// Pops the expired items at the head, up to the first live one.
    fn drain_prefix(&mut self, now: Instant) -> (items: Vec<PopResult<T>>)
        requires
            old(self).wf(),
            !old(self).ttl_reduced,
        ensures
            final(self).wf(),
            items@ == expired_items(old(self)@.entries, now),
            final(self)@ == old(self)@.drained(now),
    {
        let mut items: Vec<PopResult<T>> = Vec::new();
        let ghost start = old(self)@;
        let ghost all = start.entries;
        assert(all.skip(0) =~= all);
        assert(items@ =~= all.take(0));
        let mut more: bool = true;
        while more
            invariant
                self.wf(),
                start == old(self)@,
                start.inv(),
                !start.ttl_reduced,
                all == start.entries,
                items@.len() <= all.len(),
                items@ == all.take(items@.len() as int),
                forall|i: int| 0 <= i < items@.len() ==> is_expired(#[trigger] all[i], now),
                self@ == (RingView {
                    entries: all.skip(items@.len() as int),
                    capacity: if items@.len() == 0 {
                        start.capacity
                    } else {
                        compacted(
                            start.capacity,
                            start.target_capacity,
                            (all.len() - items@.len()) as nat,
                        )
                    },
                    ..start
                }),
                !more ==> items@.len() == all.len() || !is_expired(all[items@.len() as int], now),
            decreases all.len() - items@.len(), (if more { 1int } else { 0int }),
        {
            let ghost k = items@.len() as int;
            more = match self.head_expires_at() {
                Some(expires_at) => at_or_before(expires_at, now),
                None => false,
            };
            if more {
                if let Some(pop) = self.try_pop() {
                    items.push(pop);
                }
                assert(all.take(k + 1) =~= all.take(k).push(all[k]));
                assert(all.skip(k + 1) =~= all.skip(k).drop_first());
            }
        }
        proof {
            let k = items@.len() as int;
            assert forall|i: int| k <= i < all.len() implies !is_expired(
                #[trigger] all[i],
                now,
            ) by {
                assert(instant_nanos(all[k].expires_at) <= instant_nanos(all[i].expires_at));
            }
            lemma_expired_prefix(all, now, k);
        }
        items
    }

    /// The state after the expired items of `start` have been taken out of their slots, before
    /// the survivors have been moved together.
    spec fn scanned(&self, start: &Ring<T>, now: Instant) -> bool {
        &&& self.same_settings(start)
        &&& self.head == start.head
        &&& self.tail == start.tail
        &&& self.slots@.len() == start.slots@.len()
        &&& self.len == live_items(start.entries(), now).len()
        &&& forall|i: int|
            0 <= i < start.len ==> (#[trigger] self.slot(i)).entry == if is_expired(
                start.entries()[i],
                now,
            ) {
                None
            } else {
                start.slot(i).entry
            }
        &&& forall|i: int|
            start.len <= i < start.slots@.len() ==> (#[trigger] self.slot(i)).entry is None
    }

    /// Takes the expired items out of their slots. Returns them, whether that opened a gap
    /// among the survivors, and whether the deadlines of the survivors are in FIFO order.
    fn take_expired(&mut self, now: Instant) -> (result: (Vec<PopResult<T>>, bool, bool))
        requires
            old(self).storage_ok(),
        ensures
            final(self).scanned(old(self), now),
            result.0@ == expired_items(old(self).entries(), now),
            result.1 == has_gap(old(self).entries(), now),
            result.2 == is_monotonic(live_items(old(self).entries(), now)),
    {
        let cap: usize = self.slots.len();
        let original_len: usize = self.len;
        let ghost all = self.entries();
        let mut items: Vec<PopResult<T>> = Vec::new();
        let mut gap_opened: bool = false;
        let mut prev_survivor: Option<Instant> = None;
        let mut survivors_monotonic: bool = true;
        let mut i: usize = 0;
        assert(all.take(0) =~= Seq::empty());
        assert(items@ =~= expired_items(all.take(0), now)) by {
            reveal(Seq::filter);
        }
        assert(live_items(all.take(0), now) =~= Seq::empty()) by {
            reveal(Seq::filter);
        }
        while i < original_len
            invariant
                old(self).storage_ok(),
                all == old(self).entries(),
                cap == old(self).slots@.len(),
                original_len == old(self).len,
                i <= original_len,
                self.same_settings(old(self)),
                self.head == old(self).head,
                self.tail == old(self).tail,
                self.slots@.len() == cap,
                items@ == expired_items(all.take(i as int), now),
                self.len == original_len - items@.len(),
                items@.len() + live_items(all.take(i as int), now).len() == i,
                gap_opened == has_gap(all.take(i as int), now),
                survivors_monotonic == is_monotonic(live_items(all.take(i as int), now)),
                prev_survivor == if live_items(all.take(i as int), now).len() == 0 {
                    None
                } else {
                    Some(live_items(all.take(i as int), now).last().expires_at)
                },
                forall|j: int|
                    0 <= j < i ==> (#[trigger] self.slot(j)).entry == if is_expired(
                        all[j],
                        now,
                    ) {
                        None
                    } else {
                        old(self).slot(j).entry
                    },
                forall|j: int| i <= j < cap ==> #[trigger] self.slot(j) == old(self).slot(j),
            decreases original_len - i,
        {
            let index: usize = wrap(self.head, i, cap);
            let ghost seen = all.take(i as int);
            let ghost before = *self;
            proof {
                assert(self.slots@[index as int] == self.slot(i as int));
                assert(self.slot(i as int) == old(self).slot(i as int));
                assert(all.take(i + 1) =~= seen.push(all[i as int]));
                lemma_filter_push(seen, all[i as int], |e: PopResult<T>| is_expired(e, now));
                lemma_filter_push(seen, all[i as int], |e: PopResult<T>| !is_expired(e, now));
                lemma_has_gap_push(seen, all[i as int], now);
                lemma_monotonic_push(live_items(seen, now), all[i as int]);
            }
            let expires_at: Option<Instant> = match &self.slots[index].entry {
                Some(entry) => Some(entry.expires_at),
                None => None,
            };
            if let Some(expires_at) = expires_at {
                if at_or_before(expires_at, now) {
                    if let Some(stored) = self.slots[index].take() {
                        let pop = self.with_channels(stored);
                        items.push(pop);
                        self.len = self.len - 1;
                        if prev_survivor.is_some() {
                            gap_opened = true;
                        }
                    }
                } else {
                    if let Some(prev) = prev_survivor {
                        if !at_or_before(prev, expires_at) {
                            survivors_monotonic = false;
                        }
                    }
                    prev_survivor = Some(expires_at);
                }
            }
            assert forall|j: int| 0 <= j < cap && j != i implies #[trigger] self.slot(j)
                == before.slot(j) by {}
            i = i + 1;
        }
        assert(all.take(original_len as int) =~= all);
        (items, gap_opened, survivors_monotonic)
    }

    /// Moves the survivors of a scan together, into a new Vec of at least the target capacity.
    fn close_gaps(
        &mut self,
        original_len: usize,
        Ghost(start): Ghost<Ring<T>>,
        Ghost(now): Ghost<Instant>,
    )
        requires
            start.wf(),
            original_len == start.len,
            old(self).scanned(&start, now),
        ensures
            final(self).storage_ok(),
            final(self)@ == (RingView {
                entries: live_items(start@.entries, now),
                capacity: if live_items(start@.entries, now).len() <= start@.target_capacity {
                    start@.target_capacity
                } else {
                    live_items(start@.entries, now).len()
                },
                ..start@
            }),
    {
        let cap: usize = self.slots.len();
        let new_cap: usize = self.target_capacity;
        let mut new_slots: Vec<Slot<T>> = Vec::with_capacity(new_cap);
        let ghost all = start.entries();
        let ghost kept = live_items(all, now);
        let mut i: usize = 0;
        assert(all.take(0) =~= Seq::empty());
        assert(live_items(all.take(0), now) =~= Seq::empty()) by {
            reveal(Seq::filter);
        }
        while i < original_len
            invariant
                start.wf(),
                all == start.entries(),
                original_len == start.len,
                cap == start.slots@.len(),
                i <= original_len,
                self.same_settings(&start),
                self.head == start.head,
                self.len == old(self).len,
                self.slots@.len() == cap,
                forall|j: int|
                    i <= j < start.len ==> (#[trigger] self.slot(j)).entry == if is_expired(
                        all[j],
                        now,
                    ) {
                        None
                    } else {
                        start.slot(j).entry
                    },
                new_slots@.len() == live_items(all.take(i as int), now).len(),
                forall|j: int|
                    0 <= j < new_slots@.len() ==> (#[trigger] new_slots@[j]).entry is Some
                        && routed(
                        start.mode,
                        start.expiry_channel,
                        start.shutdown_channel,
                        new_slots@[j].entry->0,
                    ) == live_items(all.take(i as int), now)[j] && (start.mode is Spsc
                        ==> new_slots@[j].entry->0.expiry_channel is None
                        && new_slots@[j].entry->0.shutdown_channel is None),
            decreases original_len - i,
        {
            let index: usize = wrap(self.head, i, cap);
            let ghost seen = all.take(i as int);
            let ghost before = *self;
            proof {
                assert(self.slots@[index as int] == self.slot(i as int));
                assert(start.slot(i as int).entry is Some);
                assert(all.take(i + 1) =~= seen.push(all[i as int]));
                lemma_filter_push(seen, all[i as int], |e: PopResult<T>| !is_expired(e, now));
            }
            if self.slots[index].is_occupied() {
                let mut slot: Slot<T> = Slot::empty();
                std::mem::swap(&mut self.slots[index], &mut slot);
                new_slots.push(slot);
            }
            assert forall|j: int| 0 <= j < cap && j != i implies #[trigger] self.slot(j)
                == before.slot(j) by {}
            i = i + 1;
        }
        assert(all.take(original_len as int) =~= all);
        let placed: usize = new_slots.len();
        while new_slots.len() < new_cap
            invariant
                placed == kept.len(),
                placed <= new_slots@.len(),
                new_slots@.len() <= new_cap || new_slots@.len() == placed,
                forall|j: int|
                    0 <= j < placed ==> (#[trigger] new_slots@[j]).entry is Some && routed(
                        start.mode,
                        start.expiry_channel,
                        start.shutdown_channel,
                        new_slots@[j].entry->0,
                    ) == kept[j] && (start.mode is Spsc
                        ==> new_slots@[j].entry->0.expiry_channel is None
                        && new_slots@[j].entry->0.shutdown_channel is None),
                forall|j: int|
                    placed <= j < new_slots@.len() ==> (#[trigger] new_slots@[j]).entry is None,
            decreases new_cap - new_slots.len(),
        {
            new_slots.push(Slot::empty());
        }
        self.slots = new_slots;
        self.head = 0;
        self.tail = if placed == self.slots.len() {
            0
        } else {
            placed
        };
        proof {
            assert forall|j: int| 0 <= j < self.slots@.len() implies #[trigger] self.slot(j)
                == new_slots@[j] by {}
            assert(self@.entries =~= kept);
        }
    }

    /// Looks at every item and removes those that have expired.
    fn drain_scan(&mut self, now: Instant) -> (items: Vec<PopResult<T>>)
        requires
            old(self).wf(),
            old(self).ttl_reduced,
        ensures
            final(self).wf(),
            items@ == expired_items(old(self)@.entries, now),
            final(self)@ == old(self)@.drained(now),
    {
        let cap: usize = self.slots.len();
        let original_len: usize = self.len;
        let ghost all = self@.entries;
        let ghost kept = live_items(all, now);
        proof {
            lemma_filter_len(all, |e: PopResult<T>| is_expired(e, now));
            let f = |e: PopResult<T>| is_expired(e, now);
            assert((|e: PopResult<T>| !f(e)) =~= (|e: PopResult<T>| !is_expired(e, now)));
            lemma_live_channels(self@, now);
        }
        let (items, gap_opened, survivors_monotonic) = self.take_expired(now);
        if gap_opened {
            self.close_gaps(original_len, Ghost(*old(self)), Ghost(now));
        } else {
            // Only a head prefix expired.
            let removed: usize = original_len - self.len;
            let ghost mid = *self;
            self.head = wrap(self.head, removed, cap);
            proof {
                let k = removed as int;
                lemma_no_gap(all, now);
                lemma_filter_members(all, |e: PopResult<T>| is_expired(e, now));
                lemma_filter_members(all, |e: PopResult<T>| !is_expired(e, now));
                assert forall|i: int| 0 <= i < cap implies #[trigger] self.slot(i) == mid.slot(
                    slot_index(k, i, cap as int),
                ) by {}
                assert forall|i: int| 0 <= i < k implies is_expired(#[trigger] all[i], now) by {
                    assert(expired_items(all, now)[i] == all[i]);
                }
                assert forall|i: int| k <= i < all.len() implies !is_expired(
                    #[trigger] all[i],
                    now,
                ) by {
                    assert(kept[i - k] == all[i]);
                }
                assert forall|i: int| 0 <= i < self.len implies #[trigger] self.slot(i).entry
                    == old(self).slot(i + k).entry by {
                    assert(!is_expired(all[i + k], now));
                }
                assert(self@.entries =~= kept);
            }
        }
        if self.should_compact() {
            self.compact();
        }
        if self.len <= 1 || survivors_monotonic {
            let ghost before = *self;
            self.ttl_reduced = false;
            proof {
                before.lemma_same_storage(self);
            }
        }
        items
    }

    /// Sets the shutdown flag and extracts all remaining items in FIFO order.
    ///
    /// Each item carries channel handles by the same mode rules as in [`Ring::try_pop`].
    /// Calling shutdown on an already shut-down buffer returns an empty Vec.
    pub fn shutdown(&mut self) -> (items: Vec<PopResult<T>>)
        requires
            old(self).wf(),
        ensures
            final(self).wf(),
            items@ == old(self)@.entries,
            final(self)@ == old(self)@.shut_down(),
    {
        if self.shutdown {
            let items: Vec<PopResult<T>> = Vec::new();
            assert(items@ =~= self@.entries);
            assert(self@.entries =~= Seq::empty());
            return items;
        }
        self.shutdown = true;
        let mut items: Vec<PopResult<T>> = Vec::with_capacity(self.len);
        let ghost all = old(self)@.entries;
        proof {
            old(self).lemma_same_storage(self);
        }
        assert(all.skip(0) =~= all);
        assert(items@ =~= all.take(0));
        while self.len > 0
            invariant
                self.storage_ok(),
                items@.len() <= all.len(),
                items@ == all.take(items@.len() as int),
                self@ == (RingView {
                    entries: all.skip(items@.len() as int),
                    shutdown: true,
                    ..old(self)@
                }),
                all == old(self)@.entries,
            decreases self.len,
        {
            let ghost k = items@.len() as int;
            assert(self@.entries.len() == self.len);
            if let Some(pop) = self.take_head() {
                items.push(pop);
            }
            assert(all.take(k + 1) =~= all.take(k).push(all[k]));
            assert(all.skip(k + 1) =~= all.skip(k).drop_first());
        }
        assert(self@.entries.len() == self.len);
        assert(all.take(items@.len() as int) =~= all);
        let ghost before = *self;
        self.head = 0;
        self.tail = 0;
        proof {
            let cap = self.slots@.len() as int;
            assert forall|i: int| 0 <= i < cap implies (#[trigger] self.slot(i)).entry is None by {
                let h = before.head as int;
                let j = if i >= h {
                    i - h
                } else {
                    i - h + cap
                };
                assert(before.slot(j) == self.slot(i));
            }
            assert(self@.entries =~= Seq::empty());
        }
        items
    }

    /// Whether the buffer has been shut down.
    pub fn is_shutdown(&self) -> (yes: bool)
        ensures
            yes == self@.shutdown,
    {
        self.shutdown
    }

    /// The number of items.
    pub fn len(&self) -> (n: usize)
        ensures
            n == self@.entries.len(),
    {
        self.len
    }

    /// The number of slots allocated.
    pub fn capacity(&self) -> (n: usize)
        ensures
            n == self@.capacity,
    {
        self.slots.len()
    }

    /// The number of items above which pushes are rejected. Equals the capacity when no shrink
    /// is pending.
    pub fn target_capacity(&self) -> (n: usize)
        ensures
            n == self@.target_capacity,
    {
        self.target_capacity
    }

    /// Whether there are no items.
    pub fn is_empty(&self) -> (yes: bool)
        ensures
            yes == (self@.entries.len() == 0),
    {
        self.len == 0
    }

    /// Whether pushes are rejected for want of space.
    pub fn is_full(&self) -> (yes: bool)
        ensures
            yes == (self@.entries.len() >= self@.target_capacity),
    {
        self.len >= self.target_capacity
    }

    /// Whether the deadlines may be out of FIFO order.
    pub fn ttl_reduced(&self) -> (yes: bool)
        ensures
            yes == self@.ttl_reduced,
    {
        self.ttl_reduced
    }

    /// The TTL that deadlines are computed from: the stored one, clamped to the accepted range.
    pub fn ttl(&self) -> (ttl: Duration)
        ensures
            duration_nanos(ttl) == clamped_ttl(self@.ttl),
    {
        clamp_ttl(self.ttl)
    }

    /// Updates the TTL. Future pushes use the new value; items already enqueued keep their
    /// deadlines.
    ///
    /// A TTL outside the accepted range is rejected with `InvalidArgument`. A reduction while
    /// there are items marks the deadlines as possibly out of order. An increase never clears
    /// that mark: it cannot repair deadlines that are already out of order.
    pub fn set_ttl(&mut self, ttl: Duration) -> (result: Result<(), CaducusError>)
        requires
            old(self).wf(),
        ensures
            final(self).wf(),
            match result {
                Ok(_) => {
                    &&& ttl_in_range(duration_nanos(ttl))
                    &&& final(self)@ == old(self)@.with_ttl(duration_nanos(ttl))
                },
                Err(e) => {
                    &&& !ttl_in_range(duration_nanos(ttl))
                    &&& e.kind is InvalidArgument
                    &&& final(self)@ == old(self)@
                },
            },
    {
        if let Err(e) = Self::validate_ttl(ttl) {
            return Err(e);
        }
        let new_nanos: u128 = ttl.as_nanos();
        let old_nanos: u128 = self.ttl.as_nanos();
        if new_nanos < old_nanos && self.len > 0 {
            self.ttl_reduced = true;
        }
        self.ttl = ttl;
        proof {
            old(self).lemma_same_storage(self);
        }
        Ok(())
    }

    /// Requests a new capacity. Clamped to a minimum of 1.
    ///
    /// Growth reallocates immediately. Shrink reallocates immediately if occupancy allows,
    /// otherwise it is deferred until occupancy has dropped.
    pub fn request_capacity(&mut self, new: usize)
        requires
            old(self).wf(),
        ensures
            final(self).wf(),
            final(self)@ == old(self)@.with_capacity(new as nat),
    {
        assert(self@.entries.len() == self.len);
        let new: usize = if new == 0 {
            1
        } else {
            new
        };
        let current: usize = self.slots.len();
        if new == current && self.target_capacity == current {
            return;
        }
        if new > current {
            self.linearize(new);
        } else if new < current {
            if self.len <= new {
                self.linearize(new);
            } else {
                self.target_capacity = new;
                proof {
                    old(self).lemma_same_storage(self);
                }
            }
        } else {
            self.target_capacity = new;
            proof {
                old(self).lemma_same_storage(self);
            }
        }
    }
}

} // verus!
