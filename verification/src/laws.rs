//! What holds of the channel as a whole.
//!
//! An operation on the buffer is an [`Op`]; [`apply`] says what it makes of the buffer, by the
//! same spec functions that the contracts of [`crate::concurrency::ConcurrentRing`] use. A
//! [`Ledger`] accounts for the items over any sequence of operations.

pub mod buffer;
pub mod decisions;

use std::sync::Arc;
use std::time::Instant;
use vstd::multiset::Multiset;
use vstd::prelude::*;

use crate::clock::{
    clamped_ttl, duration_nanos, instant_nanos, instant_plus, is_deadline, ttl_in_range,
};
use crate::concurrency::ring_view::{
    expired_items, has_gap, is_expired, is_monotonic, lemma_filter_len, lemma_filter_members,
    lemma_filter_prefix, lemma_filter_push, lemma_live_channels, lemma_monotonic_has_no_gap,
    lemma_monotonic_push, lemma_no_gap, lemma_some_live, live_items, soonest, RingView,
};
use crate::concurrency::{ChannelMode, DrainMode, PopResult, ReportChannel};
use crate::error::{CaducusError, CaducusErrorKind};
use crate::receiver::{
    attempt_step, effective_deadline, wait_step, NextAction, NextCall, NextPhase,
};
use crate::reclaimer::{
    expiry_reports, receive_outcome, shutdown_reports, wait_spec, ReclaimerWait,
};
use crate::sender::{acquired, released};

verus! {

/// An operation on the buffer of a channel.
#[verifier::reject_recursive_types(T)]
pub enum Op<T> {
    /// An SPSC send of an item with the given deadline.
    SendSpsc { item: T, expires_at: Instant },
    /// An MPSC send of an item with the given deadline and report channels.
    SendMpsc {
        item: T,
        expires_at: Instant,
        expiry_channel: Option<Arc<dyn ReportChannel<T>>>,
        shutdown_channel: Option<Arc<dyn ReportChannel<T>>>,
    },
    /// A drain at the given time, by the reclaimer or the receiver.
    Drain { now: Instant, mode: DrainMode },
    /// A shutdown.
    Shutdown,
    /// A change of the TTL.
    UpdateTtl { ttl: nat },
    /// A change of the capacity.
    UpdateCapacity { new: nat },
}

/// The buffer after an operation.
pub open spec fn apply<T>(v: RingView<T>, op: Op<T>) -> RingView<T> {
    match op {
        Op::SendSpsc { item, expires_at } => if v.rejection(ChannelMode::Spsc, item) is None {
            v.pushed_spsc(item, expires_at)
        } else {
            v
        },
        Op::SendMpsc { item, expires_at, expiry_channel, shutdown_channel } => if v.rejection(
            ChannelMode::Mpsc,
            item,
        ) is None {
            v.pushed_mpsc(item, expires_at, expiry_channel, shutdown_channel)
        } else {
            v
        },
        Op::Drain { now, mode } => v.drained_as(now, mode),
        Op::Shutdown => v.shut_down(),
        Op::UpdateTtl { ttl } => if ttl_in_range(ttl) {
            v.with_ttl(ttl)
        } else {
            v
        },
        Op::UpdateCapacity { new } => v.with_capacity(new),
    }
}

/// The items that an operation enqueues.
pub open spec fn sent_by<T>(v: RingView<T>, op: Op<T>) -> Seq<PopResult<T>> {
    match op {
        Op::SendSpsc { item, expires_at } => if v.rejection(ChannelMode::Spsc, item) is None {
            seq![
                PopResult {
                    item,
                    expires_at,
                    expiry_channel: v.expiry_channel,
                    shutdown_channel: v.shutdown_channel,
                },
            ]
        } else {
            Seq::empty()
        },
        Op::SendMpsc { item, expires_at, expiry_channel, shutdown_channel } => if v.rejection(
            ChannelMode::Mpsc,
            item,
        ) is None {
            seq![PopResult { item, expires_at, expiry_channel, shutdown_channel }]
        } else {
            Seq::empty()
        },
        _ => Seq::empty(),
    }
}

/// The items that an operation hands to the receiver.
pub open spec fn received_by<T>(v: RingView<T>, op: Op<T>) -> Seq<PopResult<T>> {
    match op {
        Op::Drain { now, mode } => match v.claimed(now, mode) {
            Some(pop) => seq![pop],
            None => Seq::empty(),
        },
        _ => Seq::empty(),
    }
}

/// The items that an operation finds expired.
pub open spec fn expired_by<T>(v: RingView<T>, op: Op<T>) -> Seq<PopResult<T>> {
    match op {
        Op::Drain { now, mode } => expired_items(v.entries, now),
        _ => Seq::empty(),
    }
}

/// The items that an operation removes because the channel shuts down.
pub open spec fn shut_down_by<T>(v: RingView<T>, op: Op<T>) -> Seq<PopResult<T>> {
    match op {
        Op::Shutdown => v.entries,
        _ => Seq::empty(),
    }
}

/// What has become of the items of a channel.
#[verifier::reject_recursive_types(T)]
pub struct Ledger<T> {
    /// The buffer.
    pub buffer: RingView<T>,
    /// The items enqueued, in order.
    pub sent: Seq<PopResult<T>>,
    /// The items handed to the receiver, in order.
    pub received: Seq<PopResult<T>>,
    /// The items found expired, in order.
    pub expired: Seq<PopResult<T>>,
    /// The items removed at shutdown, in order.
    pub shutdown: Seq<PopResult<T>>,
}

/// The ledger after the operations `ops` on a buffer `start`.
pub open spec fn run<T>(start: RingView<T>, ops: Seq<Op<T>>) -> Ledger<T>
    decreases ops.len(),
{
    if ops.len() == 0 {
        Ledger {
            buffer: start,
            sent: Seq::empty(),
            received: Seq::empty(),
            expired: Seq::empty(),
            shutdown: Seq::empty(),
        }
    } else {
        let before = run(start, ops.drop_last());
        let op = ops.last();
        Ledger {
            buffer: apply(before.buffer, op),
            sent: before.sent + sent_by(before.buffer, op),
            received: before.received + received_by(before.buffer, op),
            expired: before.expired + expired_by(before.buffer, op),
            shutdown: before.shutdown + shut_down_by(before.buffer, op),
        }
    }
}

/// The items of `a` occur in `b` in the same order.
pub open spec fn is_subsequence<A>(a: Seq<A>, b: Seq<A>) -> bool
    decreases b.len(),
{
    a.len() == 0 || (b.len() > 0 && ((a.last() == b.last() && is_subsequence(
        a.drop_last(),
        b.drop_last(),
    )) || is_subsequence(a, b.drop_last())))
}

proof fn lemma_subsequence_refl<A>(a: Seq<A>)
    ensures
        is_subsequence(a, a),
    decreases a.len(),
{
    if a.len() > 0 {
        lemma_subsequence_refl(a.drop_last());
    }
}

proof fn lemma_subsequence_push<A>(a: Seq<A>, b: Seq<A>, x: A)
    requires
        is_subsequence(a, b),
    ensures
        is_subsequence(a.push(x), b.push(x)),
        is_subsequence(a, b.push(x)),
{
    assert(a.push(x).drop_last() =~= a);
    assert(b.push(x).drop_last() =~= b);
}

proof fn lemma_subsequence_trans<A>(a: Seq<A>, b: Seq<A>, c: Seq<A>)
    requires
        is_subsequence(a, b),
        is_subsequence(b, c),
    ensures
        is_subsequence(a, c),
    decreases c.len(), b.len(),
{
    if a.len() > 0 {
        if b.last() == c.last() && is_subsequence(b.drop_last(), c.drop_last()) {
            if a.last() == b.last() && is_subsequence(a.drop_last(), b.drop_last()) {
                lemma_subsequence_trans(a.drop_last(), b.drop_last(), c.drop_last());
            } else {
                lemma_subsequence_trans(a, b.drop_last(), c.drop_last());
            }
        } else {
            lemma_subsequence_trans(a, b, c.drop_last());
        }
    }
}

proof fn lemma_subsequence_append<A>(p: Seq<A>, a: Seq<A>, b: Seq<A>)
    requires
        is_subsequence(a, b),
    ensures
        is_subsequence(p + a, p + b),
    decreases b.len(),
{
    if b.len() == 0 {
        assert(p + a =~= p + b);
        lemma_subsequence_refl(p + b);
    } else {
        assert((p + b).drop_last() =~= p + b.drop_last());
        if a.len() > 0 && a.last() == b.last() && is_subsequence(a.drop_last(), b.drop_last()) {
            assert((p + a).drop_last() =~= p + a.drop_last());
            lemma_subsequence_append(p, a.drop_last(), b.drop_last());
        } else {
            if a.len() > 0 {
                assert(is_subsequence(a, b.drop_last()));
            }
            lemma_subsequence_append(p, a, b.drop_last());
        }
    }
}

pub(crate) proof fn lemma_filter_subsequence<A>(s: Seq<A>, f: spec_fn(A) -> bool)
    ensures
        is_subsequence(s.filter(f), s),
    decreases s.len(),
{
    reveal(Seq::filter);
    if s.len() > 0 {
        let r = s.drop_last();
        lemma_filter_subsequence(r, f);
        lemma_subsequence_push(r.filter(f), r, s.last());
        assert(r.push(s.last()) =~= s);
    }
}

/// A filtered sequence of deadlines in FIFO order is in FIFO order.
proof fn lemma_live_monotonic<T>(s: Seq<PopResult<T>>, now: Instant)
    requires
        is_monotonic(s),
    ensures
        is_monotonic(live_items(s, now)),
{
    lemma_monotonic_has_no_gap(s, now);
    lemma_no_gap(s, now);
    let k = expired_items(s, now).len() as int;
    let t = s.skip(k);
    assert forall|i: int, j: int| 0 <= i <= j < t.len() implies instant_nanos(
        #[trigger] t[i].expires_at,
    ) <= instant_nanos(#[trigger] t[j].expires_at) by {
        assert(t[i].expires_at == s[i + k].expires_at && t[j].expires_at == s[j + k].expires_at);
    }
}

/// Every operation leaves the buffer in order: the capacity is at least one, the items fit, a
/// shrink is pending only while they do not fit the target, a shut-down buffer is empty, and the
/// deadlines are in FIFO order unless they are marked as possibly out of order.
pub proof fn law_operations_keep_the_invariant<T>(v: RingView<T>, op: Op<T>)
    requires
        v.inv(),
    ensures
        apply(v, op).inv(),
{
    match op {
        Op::SendSpsc { item, expires_at } => {
            let e = PopResult {
                item,
                expires_at,
                expiry_channel: v.expiry_channel,
                shutdown_channel: v.shutdown_channel,
            };
            lemma_monotonic_push(v.entries, e);
        },
        Op::SendMpsc { item, expires_at, expiry_channel, shutdown_channel } => {
            let e = PopResult { item, expires_at, expiry_channel, shutdown_channel };
            lemma_monotonic_push(v.entries, e);
        },
        Op::Drain { now, mode } => {
            let d = v.drained(now);
            let f = |e: PopResult<T>| is_expired(e, now);
            lemma_filter_len(v.entries, f);
            assert((|e: PopResult<T>| !f(e)) =~= (|e: PopResult<T>| !is_expired(e, now)));
            lemma_live_channels(v, now);
            if !v.ttl_reduced {
                lemma_live_monotonic(v.entries, now);
            }
            assert(d.inv());
            if d.entries.len() > 0 {
                let rest = d.entries.drop_first();
                if is_monotonic(d.entries) {
                    assert forall|i: int, j: int| 0 <= i <= j < rest.len() implies instant_nanos(
                        #[trigger] rest[i].expires_at,
                    ) <= instant_nanos(#[trigger] rest[j].expires_at) by {
                        assert(rest[i].expires_at == d.entries[i + 1].expires_at
                            && rest[j].expires_at == d.entries[j + 1].expires_at);
                    }
                }
                assert(d.popped().inv());
            }
        },
        _ => {},
    }
}

/// Filtering splits a sequence in two without losing or doubling an item.
pub(crate) proof fn lemma_filter_partition<A>(s: Seq<A>, f: spec_fn(A) -> bool)
    ensures
        s.to_multiset() =~= s.filter(f).to_multiset().add(s.filter(|a: A| !f(a)).to_multiset()),
    decreases s.len(),
{
    broadcast use vstd::seq_lib::group_to_multiset_ensures;

    let g = |a: A| !f(a);
    if s.len() == 0 {
        reveal(Seq::filter);
        assert(s.filter(f) =~= s);
        assert(s.filter(g) =~= s);
        assert(s.to_multiset().len() == 0);
    } else {
        let r = s.drop_last();
        let x = s.last();
        lemma_filter_partition(r, f);
        lemma_filter_push(r, x, f);
        lemma_filter_push(r, x, g);
        assert(s =~= r.push(x));
    }
}

/// One operation neither loses nor doubles an item.
proof fn lemma_step_conserves<T>(v: RingView<T>, op: Op<T>)
    ensures
        v.entries.to_multiset().add(sent_by(v, op).to_multiset()) =~= received_by(
            v,
            op,
        ).to_multiset().add(expired_by(v, op).to_multiset()).add(
            shut_down_by(v, op).to_multiset(),
        ).add(apply(v, op).entries.to_multiset()),
{
    broadcast use vstd::seq_lib::group_to_multiset_ensures;

    let none = Seq::<PopResult<T>>::empty();
    assert(none.to_multiset().len() == 0);
    assert(none.to_multiset() =~= Multiset::empty());
    match op {
        Op::Drain { now, mode } => {
            let f = |e: PopResult<T>| is_expired(e, now);
            lemma_filter_partition(v.entries, f);
            assert((|e: PopResult<T>| !f(e)) =~= (|e: PopResult<T>| !is_expired(e, now)));
            let d = v.drained(now);
            if mode is DrainAndClaim && d.entries.len() > 0 {
                let one = seq![d.entries[0]];
                assert(d.entries =~= one + d.entries.drop_first());
                vstd::seq_lib::lemma_multiset_commutative(one, d.entries.drop_first());
            }
        },
        Op::SendSpsc { item, expires_at } => {
            if v.rejection(ChannelMode::Spsc, item) is None {
                let one = sent_by(v, op);
                assert(v.entries + one =~= apply(v, op).entries);
                vstd::seq_lib::lemma_multiset_commutative(v.entries, one);
            }
        },
        Op::SendMpsc { item, expires_at, expiry_channel, shutdown_channel } => {
            if v.rejection(ChannelMode::Mpsc, item) is None {
                let one = sent_by(v, op);
                assert(v.entries + one =~= apply(v, op).entries);
                vstd::seq_lib::lemma_multiset_commutative(v.entries, one);
            }
        },
        _ => {},
    }
}

/// Conservation: whatever the operations, every item that was in the buffer or was sent is
/// accounted for exactly once. It was received, it expired, it was removed at shutdown, or it is
/// still in the buffer.
pub proof fn law_conservation<T>(start: RingView<T>, ops: Seq<Op<T>>)
    ensures
        ({
            let l = run(start, ops);
            &&& start.entries.to_multiset().add(l.sent.to_multiset())
                =~= l.received.to_multiset().add(l.expired.to_multiset()).add(
                l.shutdown.to_multiset(),
            ).add(l.buffer.entries.to_multiset())
            &&& start.entries.len() + l.sent.len() == l.received.len() + l.expired.len()
                + l.shutdown.len() + l.buffer.entries.len()
        }),
    decreases ops.len(),
{
    broadcast use vstd::seq_lib::group_to_multiset_ensures;

    let l = run(start, ops);
    if ops.len() == 0 {
        let none = Seq::<PopResult<T>>::empty();
        assert(none.to_multiset().len() == 0);
        assert(none.to_multiset() =~= Multiset::empty());
    } else {
        let b = run(start, ops.drop_last());
        let op = ops.last();
        law_conservation(start, ops.drop_last());
        lemma_step_conserves(b.buffer, op);
        vstd::seq_lib::lemma_multiset_commutative(b.sent, sent_by(b.buffer, op));
        vstd::seq_lib::lemma_multiset_commutative(b.received, received_by(b.buffer, op));
        vstd::seq_lib::lemma_multiset_commutative(b.expired, expired_by(b.buffer, op));
        vstd::seq_lib::lemma_multiset_commutative(b.shutdown, shut_down_by(b.buffer, op));
        let before_left = start.entries.to_multiset().add(b.sent.to_multiset());
        let before_right = b.received.to_multiset().add(b.expired.to_multiset()).add(
            b.shutdown.to_multiset(),
        ).add(b.buffer.entries.to_multiset());
        let step_left = b.buffer.entries.to_multiset().add(sent_by(b.buffer, op).to_multiset());
        let step_right = received_by(b.buffer, op).to_multiset().add(
            expired_by(b.buffer, op).to_multiset(),
        ).add(shut_down_by(b.buffer, op).to_multiset()).add(l.buffer.entries.to_multiset());
        assert(before_left =~= before_right);
        assert(step_left =~= step_right);
        assert forall|x: PopResult<T>| #[trigger]
            start.entries.to_multiset().add(l.sent.to_multiset()).count(x)
                == l.received.to_multiset().add(l.expired.to_multiset()).add(
                l.shutdown.to_multiset(),
            ).add(l.buffer.entries.to_multiset()).count(x) by {
            assert(before_left.count(x) == before_right.count(x));
            assert(step_left.count(x) == step_right.count(x));
        }
    }
    let left = start.entries.to_multiset().add(l.sent.to_multiset());
    let right = l.received.to_multiset().add(l.expired.to_multiset()).add(
        l.shutdown.to_multiset(),
    ).add(l.buffer.entries.to_multiset());
    assert(left =~= right);
    assert(left.len() == start.entries.len() + l.sent.len());
    assert(right.len() == l.received.len() + l.expired.len() + l.shutdown.len()
        + l.buffer.entries.len());
}

/// Conservation of a finished channel: once a new channel has been shut down, the items sent are
/// those received, expired and removed at shutdown, each exactly once.
pub proof fn law_conservation_after_shutdown<T>(start: RingView<T>, ops: Seq<Op<T>>)
    requires
        start.inv(),
        start.entries.len() == 0,
        run(start, ops).buffer.shutdown,
    ensures
        ({
            let l = run(start, ops);
            &&& l.sent.to_multiset() =~= l.received.to_multiset().add(
                l.expired.to_multiset(),
            ).add(l.shutdown.to_multiset())
            &&& l.sent.len() == l.received.len() + l.expired.len() + l.shutdown.len()
        }),
{
    broadcast use vstd::seq_lib::group_to_multiset_ensures;

    law_conservation(start, ops);
    law_runs_keep_the_invariant(start, ops);
    let l = run(start, ops);
    assert(start.entries.to_multiset().len() == 0);
    assert(start.entries.to_multiset() =~= Multiset::empty());
    assert(l.buffer.entries.to_multiset().len() == 0);
    assert(l.buffer.entries.to_multiset() =~= Multiset::empty());
    let left = start.entries.to_multiset().add(l.sent.to_multiset());
    let right = l.received.to_multiset().add(l.expired.to_multiset()).add(
        l.shutdown.to_multiset(),
    );
    assert(left =~= l.sent.to_multiset());
    assert(left =~= right.add(l.buffer.entries.to_multiset()));
    assert(l.sent.to_multiset() =~= right);
}

/// Every sequence of operations leaves the buffer in order.
pub proof fn law_runs_keep_the_invariant<T>(start: RingView<T>, ops: Seq<Op<T>>)
    requires
        start.inv(),
    ensures
        run(start, ops).buffer.inv(),
    decreases ops.len(),
{
    if ops.len() > 0 {
        law_runs_keep_the_invariant(start, ops.drop_last());
        law_operations_keep_the_invariant(run(start, ops.drop_last()).buffer, ops.last());
    }
}

/// FIFO: whatever the operations, the items received and then those still in the buffer come in
/// the order in which they were sent. Expiry never reorders live items.
pub proof fn law_fifo<T>(start: RingView<T>, ops: Seq<Op<T>>)
    ensures
        ({
            let l = run(start, ops);
            is_subsequence(l.received + l.buffer.entries, start.entries + l.sent)
        }),
    decreases ops.len(),
{
    let l = run(start, ops);
    if ops.len() == 0 {
        assert(l.received + l.buffer.entries =~= start.entries + l.sent);
        lemma_subsequence_refl(start.entries + l.sent);
    } else {
        let b = run(start, ops.drop_last());
        let op = ops.last();
        law_fifo(start, ops.drop_last());
        let seen = b.received + b.buffer.entries;
        let all = start.entries + b.sent;
        match op {
            Op::Drain { now, mode } => {
                let kept = live_items(b.buffer.entries, now);
                lemma_filter_subsequence(
                    b.buffer.entries,
                    |e: PopResult<T>| !is_expired(e, now),
                );
                lemma_subsequence_append(b.received, kept, b.buffer.entries);
                lemma_subsequence_trans(b.received + kept, seen, all);
                assert(l.received + l.buffer.entries =~= b.received + kept);
                assert(start.entries + l.sent =~= all);
            },
            Op::Shutdown => {
                lemma_prefix_subsequence(b.received, b.buffer.entries);
                lemma_subsequence_trans(b.received, seen, all);
                assert(l.received + l.buffer.entries =~= b.received);
                assert(start.entries + l.sent =~= all);
            },
            Op::SendSpsc { item, expires_at } => {
                let one = sent_by(b.buffer, op);
                if one.len() > 0 {
                    lemma_subsequence_push(seen, all, one[0]);
                    assert(l.received + l.buffer.entries =~= seen.push(one[0]));
                    assert(start.entries + l.sent =~= all.push(one[0]));
                } else {
                    assert(l.received + l.buffer.entries =~= seen);
                    assert(start.entries + l.sent =~= all);
                }
            },
            Op::SendMpsc { item, expires_at, expiry_channel, shutdown_channel } => {
                let one = sent_by(b.buffer, op);
                if one.len() > 0 {
                    lemma_subsequence_push(seen, all, one[0]);
                    assert(l.received + l.buffer.entries =~= seen.push(one[0]));
                    assert(start.entries + l.sent =~= all.push(one[0]));
                } else {
                    assert(l.received + l.buffer.entries =~= seen);
                    assert(start.entries + l.sent =~= all);
                }
            },
            _ => {
                assert(l.received + l.buffer.entries =~= seen);
                assert(start.entries + l.sent =~= all);
            },
        }
    }
}

proof fn lemma_prefix_subsequence<A>(a: Seq<A>, b: Seq<A>)
    ensures
        is_subsequence(a, a + b),
    decreases b.len(),
{
    if b.len() == 0 {
        assert(a + b =~= a);
        lemma_subsequence_refl(a);
    } else {
        lemma_prefix_subsequence(a, b.drop_last());
        lemma_subsequence_push(a, a + b.drop_last(), b.last());
        assert((a + b.drop_last()).push(b.last()) =~= a + b);
    }
}

/// The items received come in the order in which they were sent.
pub proof fn law_received_in_order<T>(start: RingView<T>, ops: Seq<Op<T>>)
    requires
        start.entries.len() == 0,
    ensures
        is_subsequence(run(start, ops).received, run(start, ops).sent),
{
    let l = run(start, ops);
    law_fifo(start, ops);
    lemma_prefix_subsequence(l.received, l.buffer.entries);
    lemma_subsequence_trans(
        l.received,
        l.received + l.buffer.entries,
        start.entries + l.sent,
    );
    assert(start.entries + l.sent =~= l.sent);
}

/// Shutdown is final: no operation reopens a channel that is shut down, nothing enters its
/// buffer, and nothing is handed out by it any more.
pub proof fn law_shutdown_is_final<T>(v: RingView<T>, op: Op<T>)
    requires
        v.inv(),
        v.shutdown,
    ensures
        apply(v, op).shutdown,
        apply(v, op).entries.len() == 0,
        sent_by(v, op).len() == 0,
        received_by(v, op).len() == 0,
        expired_by(v, op).len() == 0,
        shut_down_by(v, op).len() == 0,
{
    law_operations_keep_the_invariant(v, op);
    if let Op::Drain { now, mode } = op {
        let f = |e: PopResult<T>| is_expired(e, now);
        lemma_filter_len(v.entries, f);
        assert((|e: PopResult<T>| !f(e)) =~= (|e: PopResult<T>| !is_expired(e, now)));
    }
}

/// No sequence of operations reopens a channel that is shut down or gets an item through it.
pub proof fn law_shut_down_channels_stay_shut_down<T>(start: RingView<T>, ops: Seq<Op<T>>)
    requires
        start.inv(),
        start.shutdown,
    ensures
        ({
            let l = run(start, ops);
            &&& l.buffer.shutdown
            &&& l.sent.len() == 0
            &&& l.received.len() == 0
            &&& l.expired.len() == 0
            &&& l.shutdown.len() == 0
        }),
    decreases ops.len(),
{
    if ops.len() > 0 {
        law_shut_down_channels_stay_shut_down(start, ops.drop_last());
        law_runs_keep_the_invariant(start, ops.drop_last());
        law_shutdown_is_final(run(start, ops.drop_last()).buffer, ops.last());
    }
}

/// After shutdown every attempt to receive is answered with `Shutdown`, and before it none is.
pub proof fn law_receive_after_shutdown<T>(v: RingView<T>, now: Instant)
    requires
        v.inv(),
    ensures
        v.shutdown <==> receive_outcome(v, now) == Err::<Option<T>, CaducusError>(
            CaducusError { kind: CaducusErrorKind::Shutdown(()) },
        ),
{
    if v.shutdown {
        law_claim_finds_a_live_item(v, now);
    }
}

/// After shutdown, whatever came before, a send by the right variant is answered with
/// `Shutdown` and the item, full or not.
pub proof fn law_send_after_shutdown<T>(v: RingView<T>, item: T)
    ensures
        v.shut_down().rejection(v.mode, item) == Some(CaducusErrorKind::Shutdown(item)),
{
}

/// A second shutdown changes nothing and finds nothing.
pub proof fn law_shutdown_is_idempotent<T>(v: RingView<T>)
    ensures
        v.shut_down().shut_down() == v.shut_down(),
        shut_down_by(v.shut_down(), Op::Shutdown).len() == 0,
{
}

/// A rejected send gives the item back: the error carries it, whatever the reason.
pub proof fn law_rejected_item_is_returned<T>(v: RingView<T>, mode: ChannelMode, item: T)
    requires
        v.rejection(mode, item) is Some,
    ensures
        v.rejection(mode, item)->0.carried() == Some(item),
{
}

/// A rejected send leaves the buffer as it was.
pub proof fn law_rejected_send_changes_nothing<T>(v: RingView<T>, op: Op<T>)
    requires
        op matches Op::SendSpsc { item, .. } ==> v.rejection(ChannelMode::Spsc, item) is Some,
        op matches Op::SendMpsc { item, .. } ==> v.rejection(ChannelMode::Mpsc, item) is Some,
        op is SendSpsc || op is SendMpsc,
    ensures
        apply(v, op) == v,
        sent_by(v, op).len() == 0,
{
}

/// The mode and the ring-level report channels never change.
pub proof fn law_mode_is_immutable<T>(start: RingView<T>, ops: Seq<Op<T>>)
    ensures
        run(start, ops).buffer.mode == start.mode,
        run(start, ops).buffer.expiry_channel == start.expiry_channel,
        run(start, ops).buffer.shutdown_channel == start.shutdown_channel,
    decreases ops.len(),
{
    if ops.len() > 0 {
        law_mode_is_immutable(start, ops.drop_last());
    }
}

/// Changes of the TTL and of the capacity keep all items, their order, their deadlines and their
/// report channels.
pub proof fn law_settings_keep_the_items<T>(v: RingView<T>, op: Op<T>)
    requires
        op is UpdateTtl || op is UpdateCapacity,
    ensures
        apply(v, op).entries == v.entries,
{
}

/// A shrink is completed as soon as the items fit: the storage never stays larger than requested
/// for longer than the items need it.
pub proof fn law_shrink_completes<T>(start: RingView<T>, ops: Seq<Op<T>>)
    requires
        start.inv(),
        !run(start, ops).buffer.shutdown,
        run(start, ops).buffer.entries.len() <= run(start, ops).buffer.target_capacity,
    ensures
        run(start, ops).buffer.capacity == run(start, ops).buffer.target_capacity,
{
    law_runs_keep_the_invariant(start, ops);
}

/// Sends never fill the buffer beyond its target capacity.
pub proof fn law_sends_are_bounded<T>(v: RingView<T>, op: Op<T>)
    requires
        v.inv(),
        sent_by(v, op).len() > 0,
    ensures
        apply(v, op).entries.len() <= v.target_capacity,
        apply(v, op).target_capacity == v.target_capacity,
        apply(v, op).capacity == v.capacity,
{
}

/// A growth request overrides a pending shrink.
pub proof fn law_growth_cancels_a_pending_shrink<T>(v: RingView<T>, shrink: nat, grow: nat)
    requires
        1 <= grow,
        v.entries.len() <= grow,
    ensures
        v.with_capacity(shrink).with_capacity(grow) == v.with_capacity(grow),
        v.with_capacity(grow).capacity == grow,
        v.with_capacity(grow).target_capacity == grow,
{
}

/// The soonest deadline is that of an item, and no item has an earlier one. There is one exactly
/// if there are items.
pub proof fn law_soonest_is_the_minimum<T>(s: Seq<PopResult<T>>)
    ensures
        soonest(s) is Some <==> s.len() > 0,
        soonest(s) matches Some(t) ==> {
            &&& exists|i: int| 0 <= i < s.len() && (#[trigger] s[i]).expires_at == t
            &&& forall|i: int|
                0 <= i < s.len() ==> instant_nanos(t) <= instant_nanos(
                    (#[trigger] s[i]).expires_at,
                )
        },
    decreases s.len(),
{
    if s.len() > 0 {
        let r = s.drop_last();
        law_soonest_is_the_minimum(r);
        let t = soonest(s)->0;
        assert(s[s.len() - 1] == s.last());
        assert forall|i: int| 0 <= i < s.len() implies instant_nanos(t) <= instant_nanos(
            (#[trigger] s[i]).expires_at,
        ) by {
            if i < r.len() {
                assert(r[i] == s[i]);
            }
        }
        if soonest(r) == Some(t) {
            let i = choose|i: int| 0 <= i < r.len() && (#[trigger] r[i]).expires_at == t;
            assert(s[i].expires_at == t);
        } else {
            assert(s[s.len() - 1].expires_at == t);
        }
    }
}

/// A drain is complete and exact: every item that it removes has expired, every item that it
/// leaves is live, and the soonest deadline left lies after the time of the drain.
pub proof fn law_drain_is_exact<T>(v: RingView<T>, now: Instant)
    ensures
        forall|i: int|
            0 <= i < expired_items(v.entries, now).len() ==> is_expired(
                #[trigger] expired_items(v.entries, now)[i],
                now,
            ),
        forall|i: int|
            0 <= i < v.drained(now).entries.len() ==> !is_expired(
                #[trigger] v.drained(now).entries[i],
                now,
            ),
        soonest(v.drained(now).entries) matches Some(t) ==> instant_nanos(now) < instant_nanos(t),
{
    lemma_filter_members(v.entries, |e: PopResult<T>| is_expired(e, now));
    lemma_filter_members(v.entries, |e: PopResult<T>| !is_expired(e, now));
    law_soonest_is_the_minimum(v.drained(now).entries);
}

/// The receiver never gets an item that has expired: an item claimed at `now` is live at `now`.
pub proof fn law_claimed_item_is_live<T>(v: RingView<T>, now: Instant, mode: DrainMode)
    ensures
        v.claimed(now, mode) matches Some(pop) ==> !is_expired(pop, now),
{
    law_drain_is_exact(v, now);
}

/// A live item is claimed exactly if there is one.
pub proof fn law_claim_finds_a_live_item<T>(v: RingView<T>, now: Instant)
    ensures
        v.claimed(now, DrainMode::DrainAndClaim) is Some <==> exists|i: int|
            0 <= i < v.entries.len() && !is_expired(#[trigger] v.entries[i], now),
{
    lemma_some_live(v.entries, now);
}

/// The receiver gets the oldest live item: everything enqueued before it has expired.
pub proof fn law_claim_is_the_oldest_live_item<T>(v: RingView<T>, now: Instant)
    ensures
        v.claimed(now, DrainMode::DrainAndClaim) matches Some(pop) ==> exists|i: int|
            {
                &&& 0 <= i < v.entries.len()
                &&& #[trigger] v.entries[i] == pop
                &&& !is_expired(pop, now)
                &&& forall|j: int| 0 <= j < i ==> is_expired(#[trigger] v.entries[j], now)
            },
{
    lemma_first_live(v.entries, now);
}

/// The first of the live items is the first that is live.
proof fn lemma_first_live<T>(s: Seq<PopResult<T>>, now: Instant)
    ensures
        live_items(s, now).len() > 0 ==> exists|i: int|
            {
                &&& 0 <= i < s.len()
                &&& #[trigger] s[i] == live_items(s, now)[0]
                &&& !is_expired(s[i], now)
                &&& forall|j: int| 0 <= j < i ==> is_expired(#[trigger] s[j], now)
            },
    decreases s.len(),
{
    if live_items(s, now).len() > 0 {
        let r = s.drop_last();
        let last = s.last();
        if s.len() == 0 {
            reveal(Seq::filter);
        }
        assert(s =~= r.push(last));
        lemma_filter_push(r, last, |e: PopResult<T>| !is_expired(e, now));
        if live_items(r, now).len() > 0 {
            lemma_first_live(r, now);
            let i = choose|i: int|
                {
                    &&& 0 <= i < r.len()
                    &&& #[trigger] r[i] == live_items(r, now)[0]
                    &&& !is_expired(r[i], now)
                    &&& forall|j: int| 0 <= j < i ==> is_expired(#[trigger] r[j], now)
                };
            assert(s[i] == live_items(s, now)[0]);
            assert forall|j: int| 0 <= j < i implies is_expired(#[trigger] s[j], now) by {
                assert(is_expired(r[j], now));
            }
        } else {
            lemma_some_live(r, now);
            let n = s.len() - 1;
            assert(s[n] == live_items(s, now)[0]);
            assert forall|j: int| 0 <= j < n implies is_expired(#[trigger] s[j], now) by {
                assert(is_expired(r[j], now));
            }
        }
    }
}

/// An item sent into an empty channel is received, by a receiver that comes before its deadline.
pub proof fn law_what_is_sent_is_received<T>(
    v: RingView<T>,
    item: T,
    expires_at: Instant,
    expiry_channel: Option<Arc<dyn ReportChannel<T>>>,
    shutdown_channel: Option<Arc<dyn ReportChannel<T>>>,
    now: Instant,
)
    requires
        v.inv(),
        !v.shutdown,
        v.entries.len() == 0,
        instant_nanos(now) < instant_nanos(expires_at),
    ensures
        v.rejection(v.mode, item) is None,
        receive_outcome(v.pushed_spsc(item, expires_at), now) == Ok::<Option<T>, CaducusError>(
            Some(item),
        ),
        receive_outcome(
            v.pushed_mpsc(item, expires_at, expiry_channel, shutdown_channel),
            now,
        ) == Ok::<Option<T>, CaducusError>(Some(item)),
{
    let spsc = v.pushed_spsc(item, expires_at);
    let mpsc = v.pushed_mpsc(item, expires_at, expiry_channel, shutdown_channel);
    assert(!is_expired(spsc.entries[0], now));
    assert(!is_expired(mpsc.entries[0], now));
    law_claim_finds_a_live_item(spsc, now);
    law_claim_finds_a_live_item(mpsc, now);
    law_claim_is_the_oldest_live_item(spsc, now);
    law_claim_is_the_oldest_live_item(mpsc, now);
}

proof fn lemma_filter_all<A>(s: Seq<A>, f: spec_fn(A) -> bool)
    requires
        forall|i: int| 0 <= i < s.len() ==> f(#[trigger] s[i]),
    ensures
        s.filter(f) == s,
        s.filter(|a: A| !f(a)).len() == 0,
{
    lemma_filter_prefix(s, f, s.len() as int);
    assert(s.take(s.len() as int) =~= s);
}

/// The reclaimer wakes in time: nothing expires before the soonest deadline, and at the soonest
/// deadline something does.
pub proof fn law_nothing_expires_before_the_soonest<T>(
    s: Seq<PopResult<T>>,
    soon: Instant,
    now: Instant,
)
    requires
        soonest(s) == Some(soon),
    ensures
        expired_items(s, now).len() > 0 <==> instant_nanos(soon) <= instant_nanos(now),
{
    law_soonest_is_the_minimum(s);
    let f = |e: PopResult<T>| is_expired(e, now);
    let g = |e: PopResult<T>| !is_expired(e, now);
    if instant_nanos(soon) <= instant_nanos(now) {
        let i = choose|i: int| 0 <= i < s.len() && (#[trigger] s[i]).expires_at == soon;
        s.lemma_filter_contains(f, i);
    } else {
        assert forall|i: int| 0 <= i < s.len() implies g(#[trigger] s[i]) by {}
        lemma_filter_all(s, g);
        assert((|e: PopResult<T>| !g(e)) =~= f);
    }
}

/// The reclaimer neither spins nor oversleeps: after a pass at `now` it waits for the soonest
/// deadline, before which no item left expires, or for a wakeup if there are no items left.
pub proof fn law_reclaimer_waits_for_the_next_expiry<T>(v: RingView<T>, now: Instant)
    ensures
        ({
            let left = v.drained(now).entries;
            match wait_spec(soonest(left), now) {
                ReclaimerWait::Again => false,
                ReclaimerWait::Until(deadline) => {
                    &&& instant_nanos(now) < instant_nanos(deadline)
                    &&& forall|later: Instant|
                        #![trigger expired_items(left, later)]
                        expired_items(left, later).len() > 0 <==> instant_nanos(deadline)
                            <= instant_nanos(later)
                },
                ReclaimerWait::Notified => left.len() == 0,
            }
        }),
{
    let left = v.drained(now).entries;
    law_drain_is_exact(v, now);
    law_soonest_is_the_minimum(left);
    if let Some(deadline) = soonest(left) {
        assert forall|later: Instant|
            #![trigger expired_items(left, later)]
            expired_items(left, later).len() > 0 <==> instant_nanos(deadline) <= instant_nanos(
                later,
            ) by {
            law_nothing_expires_before_the_soonest(left, deadline, later);
        }
    }
}

/// A second drain at the same time finds nothing and changes nothing.
pub proof fn law_drain_is_idempotent<T>(v: RingView<T>, now: Instant)
    requires
        v.inv(),
    ensures
        expired_items(v.drained(now).entries, now).len() == 0,
        v.drained(now).drained(now) == v.drained(now),
{
    let d = v.drained(now);
    law_drain_is_exact(v, now);
    law_operations_keep_the_invariant(v, Op::Drain { now, mode: DrainMode::DrainOnly });
    let f = |e: PopResult<T>| !is_expired(e, now);
    lemma_filter_all(d.entries, f);
    assert((|e: PopResult<T>| !f(e)) =~= (|e: PopResult<T>| is_expired(e, now)));
    if has_gap(d.entries, now) {
        let (i, j) = choose|i: int, j: int|
            0 <= i < j < d.entries.len() && !is_expired(#[trigger] d.entries[i], now)
                && is_expired(#[trigger] d.entries[j], now);
        assert(!is_expired(d.entries[j], now));
    }
}

/// A claim after the reclaimer has drained at the same time gives what it would have given
/// without the reclaimer.
pub proof fn law_claim_after_drain<T>(v: RingView<T>, now: Instant)
    requires
        v.inv(),
    ensures
        v.drained(now).claimed(now, DrainMode::DrainAndClaim) == v.claimed(
            now,
            DrainMode::DrainAndClaim,
        ),
        v.drained(now).drained_as(now, DrainMode::DrainAndClaim) == v.drained_as(
            now,
            DrainMode::DrainAndClaim,
        ),
{
    law_drain_is_idempotent(v, now);
}

/// Draining early takes nothing from a later drain: the items left at the later time are the
/// same.
pub proof fn law_early_drain_keeps_later_survivors<T>(
    s: Seq<PopResult<T>>,
    early: Instant,
    late: Instant,
)
    requires
        instant_nanos(early) <= instant_nanos(late),
    ensures
        live_items(live_items(s, early), late) == live_items(s, late),
    decreases s.len(),
{
    let f = |e: PopResult<T>| !is_expired(e, early);
    let g = |e: PopResult<T>| !is_expired(e, late);
    if s.len() == 0 {
        reveal(Seq::filter);
    } else {
        let r = s.drop_last();
        let x = s.last();
        law_early_drain_keeps_later_survivors(r, early, late);
        assert(s =~= r.push(x));
        lemma_filter_push(r, x, f);
        lemma_filter_push(r, x, g);
        lemma_filter_push(r.filter(f), x, g);
    }
}

/// While every send comes with a deadline no earlier than the one before, the deadlines are
/// known to be in FIFO order and stay so.
pub proof fn law_ordered_sends_stay_ordered<T>(v: RingView<T>, e: PopResult<T>)
    requires
        v.inv(),
        !v.ttl_reduced,
        v.entries.len() > 0 ==> instant_nanos(v.entries.last().expires_at) <= instant_nanos(
            e.expires_at,
        ),
    ensures
        !v.pushed(e).ttl_reduced,
        is_monotonic(v.pushed(e).entries),
{
    lemma_monotonic_push(v.entries, e);
}

/// Only a drain clears the mark that the deadlines may be out of order.
pub proof fn law_only_a_drain_clears_the_mark<T>(v: RingView<T>, op: Op<T>)
    requires
        v.ttl_reduced,
        op !is Drain,
    ensures
        apply(v, op).ttl_reduced,
{
}

/// Deadlines follow the time of the send and the TTL: an item sent no earlier and with no shorter
/// TTL than another expires no earlier.
pub proof fn law_deadlines_follow_time_and_ttl(
    first: Instant,
    first_sent: Instant,
    first_ttl: nat,
    second: Instant,
    second_sent: Instant,
    second_ttl: nat,
)
    requires
        is_deadline(first, first_sent, first_ttl),
        is_deadline(second, second_sent, second_ttl),
        ttl_in_range(first_ttl),
        ttl_in_range(second_ttl),
        instant_nanos(first_sent) <= instant_nanos(second_sent),
        first_ttl <= second_ttl,
        instant_plus(second_sent, second_ttl) is Some,
    ensures
        instant_nanos(first) <= instant_nanos(second),
{
}

/// An item lives for its TTL: sent at `sent`, it is live until the TTL has passed and has expired
/// from then on.
pub proof fn law_item_lives_for_its_ttl<T>(e: PopResult<T>, sent: Instant, ttl: nat, now: Instant)
    requires
        is_deadline(e.expires_at, sent, ttl),
        instant_plus(sent, ttl) is Some,
    ensures
        is_expired(e, now) <==> ttl <= instant_nanos(now) - instant_nanos(sent),
{
}

/// What happens in the course of a receive operation.
#[verifier::reject_recursive_types(T)]
pub enum ReceiveEvent<T> {
    /// An attempt to receive, on the given buffer at the time `at`. Its outcome is taken at `now`.
    Attempted { buffer: RingView<T>, at: Instant, now: Instant },
    /// The end of a wait, by a wakeup or at the end of the time.
    Waited { woken: bool },
}

/// One step of a receive operation.
#[verifier::reject_recursive_types(T)]
pub struct ReceiveStep<T> {
    /// What happened.
    pub event: ReceiveEvent<T>,
    /// What the operation does next.
    pub action: NextAction<T>,
    /// How far the operation has got.
    pub call: NextCall,
}

/// How far a receive operation that starts at `start` has got before its step `i`.
pub open spec fn call_before<T>(
    deadline: Option<Instant>,
    start: Instant,
    steps: Seq<ReceiveStep<T>>,
    i: int,
) -> NextCall {
    if i == 0 {
        NextCall { deadline: effective_deadline(deadline, start), phase: NextPhase::Check }
    } else {
        steps[i - 1].call
    }
}

/// What a receive operation does before its step `i`: first, it attempts to receive.
pub open spec fn action_before<T>(steps: Seq<ReceiveStep<T>>, i: int) -> NextAction<T> {
    if i == 0 {
        NextAction::Attempt
    } else {
        steps[i - 1].action
    }
}

/// The step takes the operation on from `before`, by what happened when it did `doing`: attempts
/// are followed by their outcomes, a wait by its end, and nothing follows a return.
pub open spec fn is_receive_step<T>(
    doing: NextAction<T>,
    before: NextCall,
    step: ReceiveStep<T>,
) -> bool {
    match step.event {
        ReceiveEvent::Attempted { buffer, at, now } => {
            &&& doing is Attempt || doing is ArmAndAttempt
            &&& buffer.inv()
            &&& attempt_step(before, receive_outcome(buffer, at), now, step.action, step.call)
        },
        ReceiveEvent::Waited { woken } => {
            &&& doing is Sleep
            &&& wait_step(before, woken, step.action, step.call)
        },
    }
}

/// A receive operation, started at `start` and carried out as far as `steps`.
pub open spec fn is_receive<T>(
    deadline: Option<Instant>,
    start: Instant,
    steps: Seq<ReceiveStep<T>>,
) -> bool {
    forall|i: int|
        0 <= i < steps.len() ==> is_receive_step(
            action_before(steps, i),
            call_before(deadline, start, steps, i),
            #[trigger] steps[i],
        )
}

/// The step is a second attempt, made with a waiter armed, that found an open buffer without a live
/// item.
pub open spec fn found_nothing_twice<T>(steps: Seq<ReceiveStep<T>>, i: int) -> bool {
    &&& 1 <= i < steps.len()
    &&& steps[i - 1].action is ArmAndAttempt
    &&& steps[i].event matches ReceiveEvent::Attempted { buffer, at, .. } && {
        &&& !buffer.shutdown
        &&& forall|j: int|
            0 <= j < buffer.entries.len() ==> is_expired(#[trigger] buffer.entries[j], at)
    }
}

/// The deadline of a receive operation is total: it is computed once, at the start, and no attempt,
/// wait or wakeup changes it.
pub proof fn law_receive_deadline_is_total<T>(
    deadline: Option<Instant>,
    start: Instant,
    steps: Seq<ReceiveStep<T>>,
    i: int,
)
    requires
        is_receive(deadline, start, steps),
        0 <= i < steps.len(),
    ensures
        steps[i].call.deadline == effective_deadline(deadline, start),
    decreases i,
{
    assert(is_receive_step(
        action_before(steps, i),
        call_before(deadline, start, steps, i),
        steps[i],
    ));
    if i > 0 {
        law_receive_deadline_is_total(deadline, start, steps, i - 1);
    }
}

/// An attempt after which the operation sleeps or times out was a second one, and found nothing.
proof fn lemma_second_attempt<T>(
    deadline: Option<Instant>,
    start: Instant,
    steps: Seq<ReceiveStep<T>>,
    i: int,
)
    requires
        is_receive(deadline, start, steps),
        0 <= i < steps.len(),
        steps[i].event is Attempted,
        steps[i].action is Sleep || (steps[i].action matches NextAction::Return(Err(e))
            && e.kind is Timeout),
    ensures
        found_nothing_twice(steps, i),
{
    let before = call_before(deadline, start, steps, i);
    assert(is_receive_step(action_before(steps, i), before, steps[i]));
    if let ReceiveEvent::Attempted { buffer, at, now } = steps[i].event {
        law_receive_after_shutdown(buffer, at);
        law_claim_finds_a_live_item(buffer, at);
        assert(!(before.phase is Check));
        assert(i >= 1);
        assert(is_receive_step(
            action_before(steps, i - 1),
            call_before(deadline, start, steps, i - 1),
            steps[i - 1],
        ));
    }
}

/// A receive operation times out only when it is due: both its last attempts were made, the second
/// with a waiter armed and on an open buffer without a live item; and then either the deadline was
/// not after the time, or a sleep for exactly the rest of the time to the deadline ended.
pub proof fn law_receive_times_out_only_when_due<T>(
    deadline: Option<Instant>,
    start: Instant,
    steps: Seq<ReceiveStep<T>>,
    i: int,
)
    requires
        is_receive(deadline, start, steps),
        0 <= i < steps.len(),
        steps[i].action matches NextAction::Return(Err(e)) && e.kind is Timeout,
    ensures
        match steps[i].event {
            ReceiveEvent::Attempted { buffer, at, now } => {
                &&& found_nothing_twice(steps, i)
                &&& instant_nanos(effective_deadline(deadline, start)) <= instant_nanos(now)
            },
            ReceiveEvent::Waited { woken } => {
                &&& !woken
                &&& found_nothing_twice(steps, i - 1)
                &&& steps[i - 1].action matches NextAction::Sleep(d)
                &&& steps[i - 1].event matches ReceiveEvent::Attempted { now, .. }
                &&& duration_nanos(d) > 0
                &&& instant_nanos(now) + duration_nanos(d) == instant_nanos(
                    effective_deadline(deadline, start),
                )
            },
        },
{
    law_receive_deadline_is_total(deadline, start, steps, i);
    assert(is_receive_step(
        action_before(steps, i),
        call_before(deadline, start, steps, i),
        steps[i],
    ));
    match steps[i].event {
        ReceiveEvent::Attempted { buffer, at, now } => {
            lemma_second_attempt(deadline, start, steps, i);
        },
        ReceiveEvent::Waited { woken } => {
            assert(steps[i - 1].action is Sleep);
            law_receive_deadline_is_total(deadline, start, steps, i - 1);
            assert(is_receive_step(
                action_before(steps, i - 1),
                call_before(deadline, start, steps, i - 1),
                steps[i - 1],
            ));
            lemma_second_attempt(deadline, start, steps, i - 1);
        },
    }
}

/// A receive operation returns what its last attempt found: a live item, or `Shutdown` if the
/// channel was shut down. Otherwise it times out. Nothing follows a return.
pub proof fn law_receive_returns_what_was_found<T>(
    deadline: Option<Instant>,
    start: Instant,
    steps: Seq<ReceiveStep<T>>,
    i: int,
)
    requires
        is_receive(deadline, start, steps),
        0 <= i < steps.len(),
        steps[i].action is Return,
    ensures
        i == steps.len() - 1,
        steps[i].action matches NextAction::Return(result) ==> match result {
            Ok(item) => {
                &&& steps[i].event matches ReceiveEvent::Attempted { buffer, at, .. }
                &&& buffer.claimed(at, DrainMode::DrainAndClaim) matches Some(pop)
                &&& pop.item == item
                &&& !is_expired(pop, at)
            },
            Err(e) => e.kind is Timeout || {
                &&& e.kind is Shutdown
                &&& steps[i].event matches ReceiveEvent::Attempted { buffer, .. }
                &&& buffer.shutdown
            },
        },
{
    assert(is_receive_step(
        action_before(steps, i),
        call_before(deadline, start, steps, i),
        steps[i],
    ));
    if let ReceiveEvent::Attempted { buffer, at, now } = steps[i].event {
        law_claimed_item_is_live(buffer, at, DrainMode::DrainAndClaim);
    }
    if i + 1 < steps.len() {
        assert(is_receive_step(
            action_before(steps, i + 1),
            call_before(deadline, start, steps, i + 1),
            steps[i + 1],
        ));
    }
}

/// A change in the number of senders of an MPSC channel.
pub enum SenderEvent {
    /// A sender was cloned.
    Cloned,
    /// A sender was dropped.
    Dropped,
}

/// The number of senders after `events` on a new channel.
pub open spec fn senders_after(events: Seq<SenderEvent>) -> nat
    decreases events.len(),
{
    if events.len() == 0 {
        1
    } else {
        match events.last() {
            SenderEvent::Cloned => acquired(senders_after(events.drop_last())),
            SenderEvent::Dropped => released(senders_after(events.drop_last())),
        }
    }
}

/// The number of clones and of drops among `events`.
pub open spec fn clones_and_drops(events: Seq<SenderEvent>) -> (nat, nat)
    decreases events.len(),
{
    if events.len() == 0 {
        (0, 0)
    } else {
        let (clones, drops) = clones_and_drops(events.drop_last());
        match events.last() {
            SenderEvent::Cloned => (clones + 1, drops),
            SenderEvent::Dropped => (clones, drops + 1),
        }
    }
}

/// Every event is one of a sender that exists, and there are never more senders than can be
/// counted.
pub open spec fn senders_exist(events: Seq<SenderEvent>) -> bool
    decreases events.len(),
{
    events.len() > 0 ==> {
        &&& senders_exist(events.drop_last())
        &&& 1 <= senders_after(events.drop_last())
        &&& events.last() is Cloned ==> senders_after(events.drop_last()) < usize::MAX
    }
}

/// The count of senders is the one sender of a new channel, and its clones, less the drops. So a
/// drop is that of the last sender exactly if it is the drop of the only one left.
pub proof fn law_senders_are_counted(events: Seq<SenderEvent>)
    requires
        senders_exist(events),
    ensures
        senders_after(events) + clones_and_drops(events).1 == 1 + clones_and_drops(events).0,
    decreases events.len(),
{
    if events.len() > 0 {
        law_senders_are_counted(events.drop_last());
    }
}

/// The TTL that deadlines are computed from is always in the accepted range, and is the stored
/// one if that is.
pub proof fn law_ttl_is_in_range(nanos: nat)
    ensures
        ttl_in_range(clamped_ttl(nanos)),
        ttl_in_range(nanos) ==> clamped_ttl(nanos) == nanos,
{
}

/// Reports are exact: each item with an expiry channel is reported to that channel exactly once,
/// in order, and no other item is.
pub proof fn law_expiry_reports_are_exact<T>(items: Seq<PopResult<T>>)
    ensures
        ({
            let reported = items.filter(|e: PopResult<T>| e.expiry_channel is Some);
            let reports = expiry_reports(items);
            &&& reports.len() == reported.len()
            &&& forall|i: int|
                0 <= i < reports.len() ==> (#[trigger] reports[i]).item == reported[i].item
                    && Some(reports[i].channel) == reported[i].expiry_channel
        }),
    decreases items.len(),
{
    let f = |e: PopResult<T>| e.expiry_channel is Some;
    if items.len() == 0 {
        reveal(Seq::filter);
    } else {
        let r = items.drop_last();
        law_expiry_reports_are_exact(r);
        assert(items =~= r.push(items.last()));
        lemma_filter_push(r, items.last(), f);
    }
}

/// Reports are exact: each item with a shutdown channel is reported to that channel exactly
/// once, in order, and no other item is.
pub proof fn law_shutdown_reports_are_exact<T>(items: Seq<PopResult<T>>)
    ensures
        ({
            let reported = items.filter(|e: PopResult<T>| e.shutdown_channel is Some);
            let reports = shutdown_reports(items);
            &&& reports.len() == reported.len()
            &&& forall|i: int|
                0 <= i < reports.len() ==> (#[trigger] reports[i]).item == reported[i].item
                    && Some(reports[i].channel) == reported[i].shutdown_channel
        }),
    decreases items.len(),
{
    let f = |e: PopResult<T>| e.shutdown_channel is Some;
    if items.len() == 0 {
        reveal(Seq::filter);
    } else {
        let r = items.drop_last();
        law_shutdown_reports_are_exact(r);
        assert(items =~= r.push(items.last()));
        lemma_filter_push(r, items.last(), f);
    }
}

} // verus!
