//! What each operation does to the buffer of a channel, item by item and setting by setting.

use std::sync::Arc;
use std::time::Instant;
use vstd::prelude::*;

use crate::clock::instant_nanos;
use crate::concurrency::ring_view::{
    expired_items, has_gap, is_expired, is_monotonic, lemma_filter_len, lemma_filter_members,
    RingView,
};
use crate::concurrency::{
    all_wakeups, no_wakeups, ChannelMode, DrainMode, PopResult, ReportChannel,
};
use crate::error::CaducusErrorKind;
use crate::laws::{
    is_subsequence, law_operations_keep_the_invariant, lemma_filter_partition,
    lemma_filter_subsequence, run, Op,
};

verus! {

/// A new buffer is open and empty, has exactly the capacity that was asked for (at least one), and
/// keeps the TTL, the mode and the report channels that it was given.
pub proof fn law_new_buffer_is_as_asked<T>(
    capacity: nat,
    ttl: nat,
    mode: ChannelMode,
    expiry_channel: Option<Arc<dyn ReportChannel<T>>>,
    shutdown_channel: Option<Arc<dyn ReportChannel<T>>>,
)
    ensures
        ({
            let v = RingView::<T>::empty(capacity, ttl, mode, expiry_channel, shutdown_channel);
            &&& capacity >= 1 ==> v.capacity == capacity && v.target_capacity == capacity
            &&& capacity == 0 ==> v.capacity == 1 && v.target_capacity == 1
            &&& v.ttl == ttl
            &&& v.mode == mode
            &&& v.expiry_channel == expiry_channel
            &&& v.shutdown_channel == shutdown_channel
            &&& v.entries.len() == 0
            &&& !v.shutdown
            &&& !v.ttl_reduced
            &&& v.inv()
        }),
{
}

/// A send is accepted exactly if it is of the right variant, the channel is open, and fewer items
/// are held than the capacity in force. Otherwise the answer names the first of these that fails,
/// and gives the item back.
pub proof fn law_send_is_accepted_exactly_below_capacity<T>(
    v: RingView<T>,
    mode: ChannelMode,
    item: T,
)
    ensures
        v.rejection(mode, item) is None <==> v.mode == mode && !v.shutdown && v.entries.len()
            < v.target_capacity,
        v.rejection(mode, item) == Some(CaducusErrorKind::InvalidPattern(item)) <==> v.mode != mode,
        v.rejection(mode, item) == Some(CaducusErrorKind::Shutdown(item)) <==> v.mode == mode
            && v.shutdown,
        v.rejection(mode, item) == Some(CaducusErrorKind::Full(item)) <==> v.mode == mode
            && !v.shutdown && v.target_capacity <= v.entries.len(),
{
}

/// An accepted item goes behind all others and changes none of them, nor any setting. The deadlines
/// are marked as possibly out of order exactly if they were, or if the new item's deadline is
/// earlier than that of the item before it.
pub proof fn law_sent_item_goes_last<T>(v: RingView<T>, e: PopResult<T>)
    ensures
        ({
            let p = v.pushed(e);
            &&& p.entries.len() == v.entries.len() + 1
            &&& p.entries[v.entries.len() as int] == e
            &&& forall|i: int| 0 <= i < v.entries.len() ==> #[trigger] p.entries[i] == v.entries[i]
            &&& p.ttl_reduced <==> v.ttl_reduced || (v.entries.len() > 0 && instant_nanos(
                e.expires_at,
            ) < instant_nanos(v.entries[v.entries.len() - 1].expires_at))
            &&& p == (RingView { entries: p.entries, ttl_reduced: p.ttl_reduced, ..v })
        }),
{
}

/// An item sent on an SPSC channel has the report channels of the channel, one sent on an MPSC
/// channel those that it was sent with. Item and deadline are kept as they are.
pub proof fn law_sent_item_keeps_its_channels<T>(
    v: RingView<T>,
    item: T,
    expires_at: Instant,
    expiry_channel: Option<Arc<dyn ReportChannel<T>>>,
    shutdown_channel: Option<Arc<dyn ReportChannel<T>>>,
)
    ensures
        ({
            let n = v.entries.len() as int;
            let spsc = v.pushed_spsc(item, expires_at);
            let mpsc = v.pushed_mpsc(item, expires_at, expiry_channel, shutdown_channel);
            &&& spsc.entries.len() == n + 1 && mpsc.entries.len() == n + 1
            &&& spsc.entries[n].item == item && mpsc.entries[n].item == item
            &&& spsc.entries[n].expires_at == expires_at && mpsc.entries[n].expires_at == expires_at
            &&& spsc.entries[n].expiry_channel == v.expiry_channel
            &&& spsc.entries[n].shutdown_channel == v.shutdown_channel
            &&& mpsc.entries[n].expiry_channel == expiry_channel
            &&& mpsc.entries[n].shutdown_channel == shutdown_channel
            &&& spsc == v.pushed(spsc.entries[n])
            &&& mpsc == v.pushed(mpsc.entries[n])
        }),
{
}

/// A pop takes exactly the item at the head, if there is one. The others move up in order, and no
/// setting changes. A pending shrink is applied once the items fit, and not before.
pub proof fn law_pop_takes_the_head<T>(v: RingView<T>)
    requires
        v.inv(),
    ensures
        v.entries.len() == 0 ==> v.head() is None && v.popped() == v,
        v.entries.len() > 0 ==> {
            let p = v.popped();
            &&& v.head() == Some(v.entries[0])
            &&& p.entries.len() == v.entries.len() - 1
            &&& forall|i: int|
                0 <= i < p.entries.len() ==> #[trigger] p.entries[i] == v.entries[i + 1]
            &&& p.capacity == if p.entries.len() <= v.target_capacity {
                v.target_capacity
            } else {
                v.capacity
            }
            &&& p == (RingView { entries: p.entries, capacity: p.capacity, ..v })
        },
{
}

/// A drain splits the items in two: those with a deadline at or before `now`, which it hands out,
/// and those with a later one, which it keeps. None is lost or doubled, and both parts are in the
/// order in which the items were enqueued.
pub proof fn law_drain_splits_at_the_time<T>(v: RingView<T>, now: Instant)
    ensures
        ({
            let gone = expired_items(v.entries, now);
            let kept = v.drained(now).entries;
            &&& forall|i: int|
                0 <= i < gone.len() ==> instant_nanos((#[trigger] gone[i]).expires_at)
                    <= instant_nanos(now)
            &&& forall|i: int|
                0 <= i < kept.len() ==> instant_nanos((#[trigger] kept[i]).expires_at)
                    > instant_nanos(now)
            &&& gone.len() + kept.len() == v.entries.len()
            &&& v.entries.to_multiset() =~= gone.to_multiset().add(kept.to_multiset())
            &&& is_subsequence(gone, v.entries)
            &&& is_subsequence(kept, v.entries)
        }),
{
    let f = |e: PopResult<T>| is_expired(e, now);
    let g = |e: PopResult<T>| !is_expired(e, now);
    assert((|e: PopResult<T>| !f(e)) =~= g);
    lemma_filter_members(v.entries, f);
    lemma_filter_members(v.entries, g);
    lemma_filter_len(v.entries, f);
    lemma_filter_partition(v.entries, f);
    lemma_filter_subsequence(v.entries, f);
    lemma_filter_subsequence(v.entries, g);
}

/// A drain changes no setting. It leaves the deadlines marked exactly if they were marked and an
/// item left is still followed by one with an earlier deadline.
pub proof fn law_drain_keeps_the_settings<T>(v: RingView<T>, now: Instant)
    requires
        v.inv(),
    ensures
        ({
            let d = v.drained(now);
            &&& d == (RingView {
                entries: d.entries,
                capacity: d.capacity,
                ttl_reduced: d.ttl_reduced,
                ..v
            })
            &&& d.ttl_reduced <==> v.ttl_reduced && exists|i: int, j: int|
                0 <= i < j < d.entries.len() && instant_nanos(#[trigger] d.entries[i].expires_at)
                    > instant_nanos(#[trigger] d.entries[j].expires_at)
        }),
{
    let d = v.drained(now);
    if v.ttl_reduced && !d.ttl_reduced {
        assert(is_monotonic(d.entries));
    }
    if d.ttl_reduced {
        assert(!is_monotonic(d.entries));
        let (i, j) = choose|i: int, j: int|
            0 <= i <= j < d.entries.len() && instant_nanos(#[trigger] d.entries[i].expires_at)
                > instant_nanos(#[trigger] d.entries[j].expires_at);
        assert(i < j);
    }
}

/// The storage after a drain: no larger than requested once the items fit. While they do not, it
/// stays as it was, except that closing gaps among the survivors cuts it to their number. A shutdown
/// leaves a pending shrink, which a drain that looks at every slot still applies.
pub proof fn law_storage_after_a_drain<T>(v: RingView<T>, now: Instant)
    requires
        v.inv(),
    ensures
        ({
            let d = v.drained(now);
            let gap = exists|i: int, j: int|
                0 <= i < j < v.entries.len() && instant_nanos(
                    (#[trigger] v.entries[i]).expires_at,
                ) > instant_nanos(now) && instant_nanos((#[trigger] v.entries[j]).expires_at)
                    <= instant_nanos(now);
            d.capacity == if v.shutdown && !v.ttl_reduced {
                v.capacity
            } else if d.entries.len() <= v.target_capacity {
                v.target_capacity
            } else if v.ttl_reduced && gap {
                d.entries.len()
            } else {
                v.capacity
            }
        }),
{
    law_operations_keep_the_invariant(v, Op::Drain { now, mode: DrainMode::DrainOnly });
    law_drain_splits_at_the_time(v, now);
    let here = has_gap(v.entries, now);
    if here {
        let (i, j) = choose|i: int, j: int|
            0 <= i < j < v.entries.len() && !is_expired(
                #[trigger] v.entries[i],
                now,
            ) && is_expired(#[trigger] v.entries[j], now);
        assert(instant_nanos(v.entries[i].expires_at) > instant_nanos(now));
    }
    if exists|i: int, j: int|
        0 <= i < j < v.entries.len() && instant_nanos((#[trigger] v.entries[i]).expires_at)
            > instant_nanos(now) && instant_nanos((#[trigger] v.entries[j]).expires_at)
            <= instant_nanos(now) {
        let (i, j) = choose|i: int, j: int|
            0 <= i < j < v.entries.len() && instant_nanos((#[trigger] v.entries[i]).expires_at)
                > instant_nanos(now) && instant_nanos((#[trigger] v.entries[j]).expires_at)
                <= instant_nanos(now);
        assert(!is_expired(v.entries[i], now));
        assert(is_expired(v.entries[j], now));
        assert(here);
    }
}

/// A drain for the reclaimer claims nothing. One for the receiver claims the first of the items
/// kept, if there is one, and leaves the others.
pub proof fn law_claim_takes_the_first_kept<T>(v: RingView<T>, now: Instant)
    ensures
        ({
            let kept = v.drained(now).entries;
            let left = v.drained_as(now, DrainMode::DrainAndClaim).entries;
            &&& v.claimed(now, DrainMode::DrainOnly) is None
            &&& v.drained_as(now, DrainMode::DrainOnly) == v.drained(now)
            &&& kept.len() == 0 ==> v.claimed(now, DrainMode::DrainAndClaim) is None && left.len()
                == 0
            &&& kept.len() > 0 ==> {
                &&& v.claimed(now, DrainMode::DrainAndClaim) == Some(kept[0])
                &&& left.len() == kept.len() - 1
                &&& forall|i: int| 0 <= i < left.len() ==> #[trigger] left[i] == kept[i + 1]
            }
        }),
{
}

/// A shutdown closes the channel and leaves no item in it. All settings and the storage stay.
pub proof fn law_shutdown_closes_and_empties<T>(v: RingView<T>)
    ensures
        v.shut_down().shutdown,
        v.shut_down().entries.len() == 0,
        v.shut_down() == (RingView { entries: v.shut_down().entries, shutdown: true, ..v }),
{
}

/// A change of the TTL sets exactly that TTL and changes nothing else, except that the deadlines
/// are marked as possibly out of order if the TTL gets shorter while there are items.
pub proof fn law_ttl_is_set<T>(v: RingView<T>, ttl: nat)
    ensures
        ({
            let w = v.with_ttl(ttl);
            &&& w.ttl == ttl
            &&& w.ttl_reduced <==> v.ttl_reduced || (ttl < v.ttl && v.entries.len() > 0)
            &&& w == (RingView { ttl, ttl_reduced: w.ttl_reduced, ..v })
        }),
{
}

/// A capacity request is in force at once, however many items are held: from then on a send is
/// rejected as `Full` exactly while at least that many are. The storage follows as soon as the items
/// fit, and until then stays as it was. Nothing else changes.
pub proof fn law_capacity_request_is_in_force_at_once<T>(v: RingView<T>, new: nat, item: T)
    ensures
        ({
            let w = v.with_capacity(new);
            let n: nat = if new >= 1 {
                new
            } else {
                1
            };
            &&& w.target_capacity == n
            &&& w.capacity == if v.entries.len() <= n {
                n
            } else {
                v.capacity
            }
            &&& w == (RingView { target_capacity: n, capacity: w.capacity, ..v })
            &&& !v.shutdown ==> {
                &&& n <= v.entries.len() <==> w.rejection(v.mode, item) == Some(
                    CaducusErrorKind::Full(item),
                )
                &&& v.entries.len() < n <==> w.rejection(v.mode, item) is None
            }
        }),
{
}

/// What the invariant means: there is room for an item, the items fit the storage, the storage is
/// larger than requested only while the items need it, a channel that is shut down holds nothing,
/// and the deadlines are in FIFO order unless they are marked.
pub proof fn law_meaning_of_the_invariant<T>(v: RingView<T>, i: int, j: int)
    requires
        v.inv(),
    ensures
        v.capacity >= 1,
        v.target_capacity >= 1,
        v.target_capacity <= v.capacity,
        v.entries.len() <= v.capacity,
        !v.shutdown && v.entries.len() <= v.target_capacity ==> v.capacity == v.target_capacity,
        v.shutdown ==> v.entries.len() == 0,
        !v.ttl_reduced && 0 <= i <= j < v.entries.len() ==> instant_nanos(v.entries[i].expires_at)
            <= instant_nanos(v.entries[j].expires_at),
        v.mode is Spsc && 0 <= i < v.entries.len() ==> v.entries[i].expiry_channel
            == v.expiry_channel && v.entries[i].shutdown_channel == v.shutdown_channel,
{
}

/// The capacity last asked for: that of the last request among `ops`, otherwise the given one.
pub open spec fn asked_capacity<T>(capacity: nat, ops: Seq<Op<T>>) -> nat
    decreases ops.len(),
{
    if ops.len() == 0 {
        capacity
    } else {
        match ops.last() {
            Op::UpdateCapacity { new } => new,
            _ => asked_capacity(capacity, ops.drop_last()),
        }
    }
}

/// The TTL last accepted: that of the last change among `ops` between one millisecond and 365 days,
/// otherwise the given one.
pub open spec fn asked_ttl<T>(ttl: nat, ops: Seq<Op<T>>) -> nat
    decreases ops.len(),
{
    if ops.len() == 0 {
        ttl
    } else {
        match ops.last() {
            Op::UpdateTtl { ttl: new } if 1_000_000 <= new <= 31_536_000_000_000_000 => new,
            _ => asked_ttl(ttl, ops.drop_last()),
        }
    }
}

/// Over any sequence of operations on a new channel, the capacity in force is the one last asked
/// for (at least one) and the TTL the one last accepted. A send of the right variant to a channel
/// that is not shut down is accepted exactly while fewer items than that capacity are held.
pub proof fn law_settings_are_those_asked_for<T>(
    capacity: nat,
    ttl: nat,
    mode: ChannelMode,
    expiry_channel: Option<Arc<dyn ReportChannel<T>>>,
    shutdown_channel: Option<Arc<dyn ReportChannel<T>>>,
    ops: Seq<Op<T>>,
    item: T,
)
    ensures
        ({
            let start = RingView::<T>::empty(capacity, ttl, mode, expiry_channel, shutdown_channel);
            let v = run(start, ops).buffer;
            let asked = asked_capacity(capacity, ops);
            let n: nat = if asked >= 1 {
                asked
            } else {
                1
            };
            &&& v.target_capacity == n
            &&& v.ttl == asked_ttl(ttl, ops)
            &&& v.mode == mode
            &&& !v.shutdown ==> {
                &&& v.entries.len() < n <==> v.rejection(mode, item) is None
                &&& n <= v.entries.len() <==> v.rejection(mode, item) == Some(
                    CaducusErrorKind::Full(item),
                )
            }
        }),
    decreases ops.len(),
{
    if ops.len() > 0 {
        law_settings_are_those_asked_for(
            capacity,
            ttl,
            mode,
            expiry_channel,
            shutdown_channel,
            ops.drop_last(),
            item,
        );
    }
}

/// An operation that owes wakeups to all owes one to the reclaimer and one to the receiver.
pub proof fn law_all_wakeups_are_both()
    ensures
        all_wakeups().reclaimer && all_wakeups().receiver,
        !no_wakeups().reclaimer && !no_wakeups().receiver,
{
}

} // verus!
