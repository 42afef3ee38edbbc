//! Which items are reported where, what the receiver gets, and what the reclaimer does next.
//!
//! Items are routed here and delivered by the caller. Each routed item is to be delivered once; a
//! failed delivery is not repeated.
//!
//! Routing drops the items that have no report channel. The owner of a channel behind a lock
//! therefore only drains or shuts down under the lock, and routes what came out after the lock has
//! been released, with [`received`], [`reclaimed`] and [`report_shutdown`]. The other functions do
//! both in one call, for an owner that needs no lock.

use std::sync::Arc;
use std::time::Instant;
use vstd::prelude::*;

use crate::clock::{at_or_before, instant_nanos, is_reading};
use crate::concurrency::ring_view::{expired_items, soonest, RingView};
use crate::concurrency::{
    all_wakeups, ConcurrentRing, DrainMode, DrainResult, PopResult, ReportChannel,
};
use crate::error::{CaducusError, CaducusErrorKind};

verus! {

/// An item on its way to a channel.
pub struct Delivery<C, T> {
    /// The channel that gets the item.
    pub channel: C,
    /// The item.
    pub item: T,
}

/// An item on its way to a report channel.
pub type Report<T> = Delivery<Arc<dyn ReportChannel<T>>, T>;

/// The reports of items that expired: one for each item with an expiry channel, in order. The
/// other items are dropped silently.
pub open spec fn expiry_reports<T>(items: Seq<PopResult<T>>) -> Seq<Report<T>>
    decreases items.len(),
{
    if items.len() == 0 {
        Seq::empty()
    } else {
        let earlier = expiry_reports(items.drop_last());
        match items.last().expiry_channel {
            Some(channel) => {
                let report = Delivery { channel, item: items.last().item };
                earlier.push(report)
            },
            None => earlier,
        }
    }
}

/// The reports of items left at shutdown: one for each item with a shutdown channel, in order.
/// The other items are dropped silently.
pub open spec fn shutdown_reports<T>(items: Seq<PopResult<T>>) -> Seq<Report<T>>
    decreases items.len(),
{
    if items.len() == 0 {
        Seq::empty()
    } else {
        let earlier = shutdown_reports(items.drop_last());
        match items.last().shutdown_channel {
            Some(channel) => {
                let report = Delivery { channel, item: items.last().item };
                earlier.push(report)
            },
            None => earlier,
        }
    }
}

/// Routes expired items to their expiry channels.
pub fn report_expired<T>(items: Vec<PopResult<T>>) -> (reports: Vec<Report<T>>)
    ensures
        reports@ == expiry_reports(items@),
{
    let ghost all = items@;
    let mut reports: Vec<Report<T>> = Vec::new();
    for pop in iter: items
        invariant
            iter.seq() == all,
            reports@ == expiry_reports(all.take(iter.index() as int)),
    {
        assert(all.take(iter.index() + 1).drop_last() =~= all.take(iter.index() as int));
        if let Some(channel) = pop.expiry_channel {
            let report = Delivery { channel, item: pop.item };
            reports.push(report);
        }
    }
    assert(all.take(all.len() as int) =~= all);
    reports
}

/// Routes items left at shutdown to their shutdown channels.
pub fn report_shutdown<T>(items: Vec<PopResult<T>>) -> (reports: Vec<Report<T>>)
    ensures
        reports@ == shutdown_reports(items@),
{
    let ghost all = items@;
    let mut reports: Vec<Report<T>> = Vec::new();
    for pop in iter: items
        invariant
            iter.seq() == all,
            reports@ == shutdown_reports(all.take(iter.index() as int)),
    {
        assert(all.take(iter.index() + 1).drop_last() =~= all.take(iter.index() as int));
        if let Some(channel) = pop.shutdown_channel {
            let report = Delivery { channel, item: pop.item };
            reports.push(report);
        }
    }
    assert(all.take(all.len() as int) =~= all);
    reports
}

/// Shuts the channel down and routes all items left.
pub fn shutdown_and_report<T>(ring: &mut ConcurrentRing<T>) -> (reports: Vec<Report<T>>)
    requires
        old(ring).wf(),
    ensures
        final(ring).wf(),
        final(ring)@ == old(ring)@.shut_down(),
        final(ring).owed() == all_wakeups(),
        reports@ == shutdown_reports(old(ring)@.entries),
{
    let items = ring.shutdown();
    report_shutdown(items)
}

/// What one attempt to receive gives: the claimed item, `Ok(None)` if the caller should wait, or
/// an error if the channel is shut down; and the reports of the items found expired.
#[verifier::reject_recursive_types(T)]
pub struct Received<T> {
    /// The outcome for the receiver.
    pub outcome: Result<Option<T>, CaducusError>,
    /// The reports to be delivered.
    pub reports: Vec<Report<T>>,
}

/// The outcome for the receiver of a drain that claimed `live`: the item if there is one, otherwise
/// an error if the buffer has been shut down.
pub open spec fn drain_outcome<T>(live: Option<PopResult<T>>, is_shutdown: bool) -> Result<
    Option<T>,
    CaducusError,
> {
    match live {
        Some(pop) => Ok(Some(pop.item)),
        None => if is_shutdown {
            Err(CaducusError { kind: CaducusErrorKind::Shutdown(()) })
        } else {
            Ok(None)
        },
    }
}

/// The outcome for the receiver of an attempt at `now` on a buffer `v`.
pub open spec fn receive_outcome<T>(v: RingView<T>, now: Instant) -> Result<
    Option<T>,
    CaducusError,
> {
    drain_outcome(v.claimed(now, DrainMode::DrainAndClaim), v.shutdown)
}

/// What a drain in mode `DrainAndClaim` means for the receiver. Routes the expired items.
pub fn received<T>(result: DrainResult<T>) -> (received: Received<T>)
    ensures
        received.outcome == drain_outcome(result.live, result.is_shutdown),
        received.reports@ == expiry_reports(result.expired@),
{
    let reports = report_expired(result.expired);
    let outcome = match result.live {
        Some(pop) => Ok(Some(pop.item)),
        None => if result.is_shutdown {
            Err(CaducusError { kind: CaducusErrorKind::Shutdown(()) })
        } else {
            Ok(None)
        },
    };
    Received { outcome, reports }
}

/// Drains the items that have expired at `now`, routes them, and claims the next live item.
pub fn try_receive_at<T>(ring: &mut ConcurrentRing<T>, now: Instant) -> (received: Received<T>)
    requires
        old(ring).wf(),
    ensures
        final(ring).wf(),
        final(ring)@ == old(ring)@.drained_as(now, DrainMode::DrainAndClaim),
        final(ring).owed() == old(ring).owed(),
        received.outcome == receive_outcome(old(ring)@, now),
        received.reports@ == expiry_reports(expired_items(old(ring)@.entries, now)),
{
    let result = ring.drain(now, DrainMode::DrainAndClaim);
    received(result)
}

/// Drains the items that have expired by now, routes them, and claims the next live item.
pub fn try_receive<T>(ring: &mut ConcurrentRing<T>) -> (received: Received<T>)
    requires
        old(ring).wf(),
    ensures
        final(ring).wf(),
        final(ring).owed() == old(ring).owed(),
        exists|now: Instant|
            {
                &&& is_reading(now)
                &&& final(ring)@ == old(ring)@.drained_as(now, DrainMode::DrainAndClaim)
                &&& received.outcome == #[trigger] receive_outcome(old(ring)@, now)
                &&& received.reports@ == expiry_reports(expired_items(old(ring)@.entries, now))
            },
{
    let now: Instant = Instant::now();
    try_receive_at(ring, now)
}

/// What one pass of the reclaimer gives.
#[verifier::reject_recursive_types(T)]
pub struct ReclaimPass<T> {
    /// The reports to be delivered.
    pub reports: Vec<Report<T>>,
    /// The channel is shut down: the reclaimer ends once the reports are delivered.
    pub exit: bool,
    /// Items were removed and others are left: the receiver is to be woken.
    pub wake_receiver: bool,
    /// The soonest deadline among the items left.
    pub next_deadline: Option<Instant>,
}

/// What a drain in mode `DrainOnly` means for the reclaimer. Routes the expired items.
pub fn reclaimed<T>(result: DrainResult<T>) -> (pass: ReclaimPass<T>)
    ensures
        pass.reports@ == expiry_reports(result.expired@),
        pass.exit == result.is_shutdown,
        pass.wake_receiver == (!result.is_shutdown && result.expired@.len() > 0
            && result.next_deadline is Some),
        pass.next_deadline == result.next_deadline,
{
    let had_expired: bool = result.expired.len() > 0;
    let reports = report_expired(result.expired);
    ReclaimPass {
        reports,
        exit: result.is_shutdown,
        wake_receiver: !result.is_shutdown && had_expired && result.next_deadline.is_some(),
        next_deadline: result.next_deadline,
    }
}

/// One pass of the reclaimer at `now`: drains the expired items and routes them.
pub fn reclaim_at<T>(ring: &mut ConcurrentRing<T>, now: Instant) -> (pass: ReclaimPass<T>)
    requires
        old(ring).wf(),
    ensures
        final(ring).wf(),
        final(ring)@ == old(ring)@.drained(now),
        final(ring).owed() == old(ring).owed(),
        pass.reports@ == expiry_reports(expired_items(old(ring)@.entries, now)),
        pass.exit == old(ring)@.shutdown,
        pass.wake_receiver == (!old(ring)@.shutdown && expired_items(
            old(ring)@.entries,
            now,
        ).len() > 0 && final(ring)@.entries.len() > 0),
        pass.next_deadline == soonest(final(ring)@.entries),
{
    let result = ring.drain(now, DrainMode::DrainOnly);
    reclaimed(result)
}

/// One pass of the reclaimer: drains the items that have expired by now and routes them.
pub fn reclaim<T>(ring: &mut ConcurrentRing<T>) -> (pass: ReclaimPass<T>)
    requires
        old(ring).wf(),
    ensures
        final(ring).wf(),
        final(ring).owed() == old(ring).owed(),
        pass.exit == old(ring)@.shutdown,
        pass.next_deadline == soonest(final(ring)@.entries),
        exists|now: Instant|
            {
                &&& is_reading(now)
                &&& final(ring)@ == #[trigger] old(ring)@.drained(now)
                &&& pass.reports@ == expiry_reports(expired_items(old(ring)@.entries, now))
                &&& pass.wake_receiver == (!old(ring)@.shutdown && expired_items(
                    old(ring)@.entries,
                    now,
                ).len() > 0 && final(ring)@.entries.len() > 0)
            },
{
    let now: Instant = Instant::now();
    reclaim_at(ring, now)
}

/// What the reclaimer waits for before its next pass.
#[derive(Debug, Clone, Copy)]
pub enum ReclaimerWait {
    /// Nothing: the next deadline has already passed.
    Again,
    /// The given deadline, or a wakeup.
    Until(Instant),
    /// A wakeup: the buffer is empty.
    Notified,
}

/// What the reclaimer waits for at `now`, given the soonest deadline.
pub open spec fn wait_spec(next_deadline: Option<Instant>, now: Instant) -> ReclaimerWait {
    match next_deadline {
        Some(deadline) => if instant_nanos(deadline) <= instant_nanos(now) {
            ReclaimerWait::Again
        } else {
            ReclaimerWait::Until(deadline)
        },
        None => ReclaimerWait::Notified,
    }
}

/// What the reclaimer waits for at `now`, given the soonest deadline.
pub fn reclaimer_wait_at(next_deadline: Option<Instant>, now: Instant) -> (wait: ReclaimerWait)
    ensures
        wait == wait_spec(next_deadline, now),
{
    match next_deadline {
        Some(deadline) => if at_or_before(deadline, now) {
            ReclaimerWait::Again
        } else {
            ReclaimerWait::Until(deadline)
        },
        None => ReclaimerWait::Notified,
    }
}

/// What the reclaimer waits for, given the soonest deadline.
pub fn reclaimer_wait(next_deadline: Option<Instant>) -> (wait: ReclaimerWait)
    ensures
        exists|now: Instant| is_reading(now) && wait == #[trigger] wait_spec(next_deadline, now),
{
    let now: Instant = Instant::now();
    reclaimer_wait_at(next_deadline, now)
}

} // verus!
