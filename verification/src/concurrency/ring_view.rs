//! The mathematical model of the ring buffer: the items it holds in FIFO order, its settings,
//! and what each operation makes of them.

use std::sync::Arc;
use std::time::Instant;
use vstd::prelude::*;

use crate::clock::instant_nanos;
use crate::concurrency::ring_buffer::{ChannelMode, PopResult, ReportChannel};
use crate::concurrency::DrainMode;
use crate::error::CaducusErrorKind;

verus! {

/// Whether an item has expired at `now`: its deadline is not after `now`.
pub open spec fn is_expired<T>(e: PopResult<T>, now: Instant) -> bool {
    instant_nanos(e.expires_at) <= instant_nanos(now)
}

/// The items of `s` that have expired at `now`, in order.
pub open spec fn expired_items<T>(s: Seq<PopResult<T>>, now: Instant) -> Seq<PopResult<T>> {
    s.filter(|e: PopResult<T>| is_expired(e, now))
}

/// The items of `s` that are live at `now`, in order.
pub open spec fn live_items<T>(s: Seq<PopResult<T>>, now: Instant) -> Seq<PopResult<T>> {
    s.filter(|e: PopResult<T>| !is_expired(e, now))
}

/// No item has a later deadline than one that was enqueued after it.
pub open spec fn is_monotonic<T>(s: Seq<PopResult<T>>) -> bool {
    forall|i: int, j: int|
        0 <= i <= j < s.len() ==> instant_nanos(#[trigger] s[i].expires_at) <= instant_nanos(
            #[trigger] s[j].expires_at,
        )
}

/// Some item that expired at `now` was enqueued after one that is live.
pub open spec fn has_gap<T>(s: Seq<PopResult<T>>, now: Instant) -> bool {
    exists|i: int, j: int|
        0 <= i < j < s.len() && !is_expired(#[trigger] s[i], now) && is_expired(
            #[trigger] s[j],
            now,
        )
}

/// The earliest deadline among the items of `s`, `None` if there are none.
pub open spec fn soonest<T>(s: Seq<PopResult<T>>) -> Option<Instant>
    decreases s.len(),
{
    if s.len() == 0 {
        None
    } else {
        let last = s.last().expires_at;
        match soonest(s.drop_last()) {
            None => Some(last),
            Some(t) => if instant_nanos(last) < instant_nanos(t) {
                Some(last)
            } else {
                Some(t)
            },
        }
    }
}

/// The storage size after the occupancy has dropped to `len`: a pending shrink is applied once
/// the items fit.
pub open spec fn compacted(capacity: nat, target_capacity: nat, len: nat) -> nat {
    if target_capacity < capacity && len <= target_capacity {
        target_capacity
    } else {
        capacity
    }
}

/// What a ring buffer holds.
#[verifier::ext_equal]
#[verifier::reject_recursive_types(T)]
pub struct RingView<T> {
    /// Operating mode.
    pub mode: ChannelMode,
    /// The items in FIFO order, each with its deadline and with the report channels that it is
    /// handed out with.
    pub entries: Seq<PopResult<T>>,
    /// The number of slots allocated.
    pub capacity: nat,
    /// The number of items above which pushes are rejected.
    pub target_capacity: nat,
    /// The stored TTL in nanoseconds.
    pub ttl: nat,
    /// Whether the buffer has been shut down.
    pub shutdown: bool,
    /// The ring-level expiry channel.
    pub expiry_channel: Option<Arc<dyn ReportChannel<T>>>,
    /// The ring-level shutdown channel.
    pub shutdown_channel: Option<Arc<dyn ReportChannel<T>>>,
    /// Whether the deadlines may be out of FIFO order.
    pub ttl_reduced: bool,
}

impl<T> RingView<T> {
    /// What holds of every ring buffer between operations.
    pub open spec fn inv(self) -> bool {
        &&& 1 <= self.target_capacity <= self.capacity
        &&& self.entries.len() <= self.capacity
        // A shrink is pending only while the items do not fit.
        &&& self.target_capacity < self.capacity ==> self.shutdown || self.target_capacity
            < self.entries.len()
        &&& self.shutdown ==> self.entries.len() == 0
        &&& !self.ttl_reduced ==> is_monotonic(self.entries)
        // In SPSC mode every item is handed out with the ring-level channels.
        &&& self.mode is Spsc ==> forall|i: int|
            0 <= i < self.entries.len() ==> (#[trigger] self.entries[i]).expiry_channel
                == self.expiry_channel && self.entries[i].shutdown_channel == self.shutdown_channel
    }

    /// A new, empty buffer.
    pub open spec fn empty(
        capacity: nat,
        ttl: nat,
        mode: ChannelMode,
        expiry_channel: Option<Arc<dyn ReportChannel<T>>>,
        shutdown_channel: Option<Arc<dyn ReportChannel<T>>>,
    ) -> RingView<T> {
        let n = if capacity == 0 {
            1
        } else {
            capacity
        };
        RingView {
            mode,
            entries: Seq::empty(),
            capacity: n,
            target_capacity: n,
            ttl,
            shutdown: false,
            expiry_channel,
            shutdown_channel,
            ttl_reduced: false,
        }
    }

    /// Why a push of `item` by the send variant of mode `mode` is rejected, `None` if it is
    /// accepted.
    pub open spec fn rejection(self, mode: ChannelMode, item: T) -> Option<CaducusErrorKind<T>> {
        if self.mode != mode {
            Some(CaducusErrorKind::InvalidPattern(item))
        } else if self.shutdown {
            Some(CaducusErrorKind::Shutdown(item))
        } else if self.entries.len() >= self.target_capacity {
            Some(CaducusErrorKind::Full(item))
        } else {
            None
        }
    }

    /// The buffer after `e` has been enqueued. An item with an earlier deadline than the one
    /// before it puts the deadlines out of order.
    pub open spec fn pushed(self, e: PopResult<T>) -> RingView<T> {
        RingView {
            entries: self.entries.push(e),
            ttl_reduced: self.ttl_reduced || (self.entries.len() > 0 && instant_nanos(e.expires_at)
                < instant_nanos(self.entries.last().expires_at)),
            ..self
        }
    }

    /// The buffer after `item` has been enqueued by an SPSC push.
    pub open spec fn pushed_spsc(self, item: T, expires_at: Instant) -> RingView<T> {
        self.pushed(
            PopResult {
                item,
                expires_at,
                expiry_channel: self.expiry_channel,
                shutdown_channel: self.shutdown_channel,
            },
        )
    }

    /// The buffer after `item` has been enqueued by an MPSC push.
    pub open spec fn pushed_mpsc(
        self,
        item: T,
        expires_at: Instant,
        expiry_channel: Option<Arc<dyn ReportChannel<T>>>,
        shutdown_channel: Option<Arc<dyn ReportChannel<T>>>,
    ) -> RingView<T> {
        self.pushed(PopResult { item, expires_at, expiry_channel, shutdown_channel })
    }

    /// The item at the head, `None` if there is none.
    pub open spec fn head(self) -> Option<PopResult<T>> {
        if self.entries.len() == 0 {
            None
        } else {
            Some(self.entries[0])
        }
    }

    /// The buffer after the head has been removed.
    pub open spec fn popped(self) -> RingView<T> {
        if self.entries.len() == 0 {
            self
        } else {
            let rest = self.entries.drop_first();
            RingView {
                entries: rest,
                capacity: compacted(self.capacity, self.target_capacity, rest.len()),
                ..self
            }
        }
    }

    /// The storage size after the items that expired at `now` have been removed. The scan of
    /// all items moves the survivors together where it left gaps among them; the scan of the
    /// head prefix changes nothing where nothing has expired.
    pub open spec fn drained_capacity(self, now: Instant) -> nat {
        let kept = live_items(self.entries, now).len();
        if self.ttl_reduced && has_gap(self.entries, now) {
            if kept <= self.target_capacity {
                self.target_capacity
            } else {
                kept
            }
        } else if !self.ttl_reduced && kept == self.entries.len() {
            self.capacity
        } else {
            compacted(self.capacity, self.target_capacity, kept)
        }
    }

    /// The buffer after the items that expired at `now` have been removed.
    pub open spec fn drained(self, now: Instant) -> RingView<T> {
        let kept = live_items(self.entries, now);
        RingView {
            entries: kept,
            capacity: self.drained_capacity(now),
            ttl_reduced: self.ttl_reduced && !is_monotonic(kept),
            ..self
        }
    }

    /// The buffer after a drain at `now` that also claims the next live item if `mode` says so.
    pub open spec fn drained_as(self, now: Instant, mode: DrainMode) -> RingView<T> {
        match mode {
            DrainMode::DrainOnly => self.drained(now),
            DrainMode::DrainAndClaim => self.drained(now).popped(),
        }
    }

    /// The item that such a drain claims.
    pub open spec fn claimed(self, now: Instant, mode: DrainMode) -> Option<PopResult<T>> {
        match mode {
            DrainMode::DrainOnly => None,
            DrainMode::DrainAndClaim => self.drained(now).head(),
        }
    }

    /// The buffer after shutdown.
    pub open spec fn shut_down(self) -> RingView<T> {
        RingView { entries: Seq::empty(), shutdown: true, ..self }
    }

    /// The buffer after its TTL has been set. A shorter TTL puts the deadlines of a non-empty
    /// buffer at risk of getting out of order.
    pub open spec fn with_ttl(self, ttl: nat) -> RingView<T> {
        RingView {
            ttl,
            ttl_reduced: self.ttl_reduced || (ttl < self.ttl && self.entries.len() > 0),
            ..self
        }
    }

    /// The buffer after a capacity of `new` has been requested: applied at once if the items
    /// fit, otherwise left pending.
    pub open spec fn with_capacity(self, new: nat) -> RingView<T> {
        let n = if new == 0 {
            1
        } else {
            new
        };
        RingView {
            target_capacity: n,
            capacity: if self.entries.len() <= n {
                n
            } else {
                self.capacity
            },
            ..self
        }
    }
}

/// Enqueuing one more item adds it to the filtered items if it matches.
pub(crate) proof fn lemma_filter_push<A>(s: Seq<A>, x: A, f: spec_fn(A) -> bool)
    ensures
        s.push(x).filter(f) == if f(x) {
            s.filter(f).push(x)
        } else {
            s.filter(f)
        },
{
    reveal(Seq::filter);
    assert(s.push(x).drop_last() =~= s);
}

/// If exactly the first `k` items match, filtering cuts the sequence in two at `k`.
pub(crate) proof fn lemma_filter_prefix<A>(s: Seq<A>, f: spec_fn(A) -> bool, k: int)
    requires
        0 <= k <= s.len(),
        forall|i: int| 0 <= i < k ==> f(#[trigger] s[i]),
        forall|i: int| k <= i < s.len() ==> !f(#[trigger] s[i]),
    ensures
        s.filter(f) == s.take(k),
        s.filter(|a: A| !f(a)) == s.skip(k),
    decreases s.len(),
{
    let g = |a: A| !f(a);
    reveal(Seq::filter);
    if s.len() == 0 {
        assert(s.take(k) =~= s);
        assert(s.skip(k) =~= s);
    } else {
        let r = s.drop_last();
        if k == s.len() {
            lemma_filter_prefix(r, f, k - 1);
            assert(r.take(k - 1) =~= r);
            assert(s.take(k) =~= r.push(s.last()));
            assert(s.skip(k) =~= r.skip(k - 1));
        } else {
            lemma_filter_prefix(r, f, k);
            assert(s.take(k) =~= r.take(k));
            assert(s.skip(k) =~= r.skip(k).push(s.last()));
        }
    }
}

/// A filtered sequence holds matching items of the sequence only.
pub(crate) proof fn lemma_filter_members<A>(s: Seq<A>, f: spec_fn(A) -> bool)
    ensures
        forall|i: int|
            0 <= i < s.filter(f).len() ==> f(#[trigger] s.filter(f)[i]) && exists|j: int|
                0 <= j < s.len() && #[trigger] s[j] == s.filter(f)[i],
    decreases s.len(),
{
    reveal(Seq::filter);
    if s.len() > 0 {
        let r = s.drop_last();
        lemma_filter_members(r, f);
        assert forall|i: int| 0 <= i < s.filter(f).len() implies f(#[trigger] s.filter(f)[i])
            && exists|j: int| 0 <= j < s.len() && #[trigger] s[j] == s.filter(f)[i] by {
            if i < r.filter(f).len() {
                assert(s.filter(f)[i] == r.filter(f)[i]);
                let j = choose|j: int| 0 <= j < r.len() && #[trigger] r[j] == r.filter(f)[i];
                assert(s[j] == r[j]);
            } else {
                assert(s[s.len() - 1] == s.filter(f)[i]);
            }
        }
    }
}

/// Every item is either in the filtered sequence or in the one of the others.
pub(crate) proof fn lemma_filter_len<A>(s: Seq<A>, f: spec_fn(A) -> bool)
    ensures
        s.filter(f).len() + s.filter(|a: A| !f(a)).len() == s.len(),
    decreases s.len(),
{
    reveal(Seq::filter);
    if s.len() > 0 {
        lemma_filter_len(s.drop_last(), f);
    }
}

/// While the deadlines are in FIFO order, the head has the soonest.
pub(crate) proof fn lemma_soonest_is_head<T>(s: Seq<PopResult<T>>)
    requires
        s.len() > 0,
        is_monotonic(s),
    ensures
        soonest(s) == Some(s[0].expires_at),
    decreases s.len(),
{
    reveal_with_fuel(soonest, 2);
    let r = s.drop_last();
    if r.len() > 0 {
        assert forall|i: int, j: int| 0 <= i <= j < r.len() implies instant_nanos(
            #[trigger] r[i].expires_at,
        ) <= instant_nanos(#[trigger] r[j].expires_at) by {
            assert(r[i] == s[i] && r[j] == s[j]);
        }
        lemma_soonest_is_head(r);
        assert(r[0] == s[0]);
        assert(s[0].expires_at == r[0].expires_at);
        assert(instant_nanos(s[0].expires_at) <= instant_nanos(s[s.len() - 1].expires_at));
    }
}

/// Enqueuing one more item keeps the deadlines in order if it is not earlier than the last.
pub(crate) proof fn lemma_monotonic_push<T>(s: Seq<PopResult<T>>, x: PopResult<T>)
    ensures
        is_monotonic(s.push(x)) <==> is_monotonic(s) && (s.len() > 0 ==> instant_nanos(
            s.last().expires_at,
        ) <= instant_nanos(x.expires_at)),
{
    let t = s.push(x);
    let n = s.len() as int;
    assert(t[n] == x);
    assert forall|i: int| 0 <= i < n implies #[trigger] t[i] == s[i] by {}
    if is_monotonic(t) {
        assert forall|i: int, j: int| 0 <= i <= j < n implies instant_nanos(
            #[trigger] s[i].expires_at,
        ) <= instant_nanos(#[trigger] s[j].expires_at) by {
            assert(t[i].expires_at == s[i].expires_at && t[j].expires_at == s[j].expires_at);
        }
        if n > 0 {
            assert(t[n - 1].expires_at == s.last().expires_at);
            assert(instant_nanos(t[n - 1].expires_at) <= instant_nanos(t[n].expires_at));
        }
    }
    if is_monotonic(s) && (n > 0 ==> instant_nanos(s.last().expires_at) <= instant_nanos(
        x.expires_at,
    )) {
        assert forall|i: int, j: int| 0 <= i <= j < t.len() implies instant_nanos(
            #[trigger] t[i].expires_at,
        ) <= instant_nanos(#[trigger] t[j].expires_at) by {
            if i < n {
                assert(t[i].expires_at == s[i].expires_at);
                assert(instant_nanos(s[i].expires_at) <= instant_nanos(s[n - 1].expires_at));
                if j < n {
                    assert(t[j].expires_at == s[j].expires_at);
                }
            }
        }
    }
}

/// There are live items exactly if some item is live.
pub(crate) proof fn lemma_some_live<T>(s: Seq<PopResult<T>>, now: Instant)
    ensures
        live_items(s, now).len() > 0 <==> exists|i: int|
            0 <= i < s.len() && !is_expired(#[trigger] s[i], now),
    decreases s.len(),
{
    reveal(Seq::filter);
    if s.len() > 0 {
        let r = s.drop_last();
        lemma_some_live(r, now);
        if is_expired(s.last(), now) {
            if exists|i: int| 0 <= i < s.len() && !is_expired(#[trigger] s[i], now) {
                let i = choose|i: int| 0 <= i < s.len() && !is_expired(#[trigger] s[i], now);
                assert(r[i] == s[i]);
            }
            if exists|i: int| 0 <= i < r.len() && !is_expired(#[trigger] r[i], now) {
                let i = choose|i: int| 0 <= i < r.len() && !is_expired(#[trigger] r[i], now);
                assert(r[i] == s[i]);
            }
        } else {
            assert(!is_expired(s[s.len() - 1], now));
        }
    }
}

/// One more item opens a gap if it has expired and follows a live one.
pub(crate) proof fn lemma_has_gap_push<T>(s: Seq<PopResult<T>>, x: PopResult<T>, now: Instant)
    ensures
        has_gap(s.push(x), now) <==> has_gap(s, now) || (is_expired(x, now) && live_items(
            s,
            now,
        ).len() > 0),
{
    let t = s.push(x);
    let n = s.len() as int;
    lemma_some_live(s, now);
    assert forall|i: int| 0 <= i < n implies #[trigger] t[i] == s[i] by {}
    assert(t[n] == x);
    if has_gap(s, now) {
        let (i, j) = choose|i: int, j: int|
            0 <= i < j < s.len() && !is_expired(#[trigger] s[i], now) && is_expired(
                #[trigger] s[j],
                now,
            );
        assert(t[i] == s[i] && t[j] == s[j]);
    }
    if is_expired(x, now) && live_items(s, now).len() > 0 {
        let i = choose|i: int| 0 <= i < s.len() && !is_expired(#[trigger] s[i], now);
        assert(!is_expired(t[i], now) && is_expired(t[n], now));
    }
    if has_gap(t, now) {
        let (i, j) = choose|i: int, j: int|
            0 <= i < j < t.len() && !is_expired(#[trigger] t[i], now) && is_expired(
                #[trigger] t[j],
                now,
            );
        assert(s[i] == t[i]);
        if j < n {
            assert(s[j] == t[j]);
        }
    }
}

/// If exactly the first `k` items have expired, they are the expired items and the others are
/// the live ones.
pub(crate) proof fn lemma_expired_prefix<T>(s: Seq<PopResult<T>>, now: Instant, k: int)
    requires
        0 <= k <= s.len(),
        forall|i: int| 0 <= i < k ==> is_expired(#[trigger] s[i], now),
        forall|i: int| k <= i < s.len() ==> !is_expired(#[trigger] s[i], now),
    ensures
        expired_items(s, now) == s.take(k),
        live_items(s, now) == s.skip(k),
{
    let f = |e: PopResult<T>| is_expired(e, now);
    lemma_filter_prefix(s, f, k);
    assert((|e: PopResult<T>| !f(e)) =~= (|e: PopResult<T>| !is_expired(e, now)));
}

/// Without a gap the expired items are a prefix.
pub(crate) proof fn lemma_no_gap<T>(s: Seq<PopResult<T>>, now: Instant)
    requires
        !has_gap(s, now),
    ensures
        expired_items(s, now).len() <= s.len(),
        expired_items(s, now) == s.take(expired_items(s, now).len() as int),
        live_items(s, now) == s.skip(expired_items(s, now).len() as int),
    decreases s.len(),
{
    if forall|i: int| 0 <= i < s.len() ==> is_expired(#[trigger] s[i], now) {
        lemma_expired_prefix(s, now, s.len() as int);
    } else {
        let r = s.drop_last();
        let last = s.last();
        assert(s =~= r.push(last));
        lemma_has_gap_push(r, last, now);
        lemma_filter_push(r, last, |e: PopResult<T>| is_expired(e, now));
        lemma_filter_push(r, last, |e: PopResult<T>| !is_expired(e, now));
        lemma_no_gap(r, now);
        let live = choose|i: int| 0 <= i < s.len() && !is_expired(#[trigger] s[i], now);
        if is_expired(last, now) {
            assert(r[live] == s[live]);
            lemma_some_live(r, now);
        }
        let k = expired_items(r, now).len() as int;
        assert(s.take(k) =~= r.take(k));
        assert(s.skip(k) =~= r.skip(k).push(last));
    }
}

/// Deadlines in FIFO order leave no gap.
pub(crate) proof fn lemma_monotonic_has_no_gap<T>(s: Seq<PopResult<T>>, now: Instant)
    requires
        is_monotonic(s),
    ensures
        !has_gap(s, now),
{
    if has_gap(s, now) {
        let (i, j) = choose|i: int, j: int|
            0 <= i < j < s.len() && !is_expired(#[trigger] s[i], now) && is_expired(
                #[trigger] s[j],
                now,
            );
        assert(instant_nanos(s[i].expires_at) <= instant_nanos(s[j].expires_at));
    }
}

/// The survivors of a drain keep their report channels.
pub(crate) proof fn lemma_live_channels<T>(v: RingView<T>, now: Instant)
    requires
        v.inv(),
    ensures
        v.mode is Spsc ==> forall|i: int|
            0 <= i < live_items(v.entries, now).len() ==> (#[trigger] live_items(
                v.entries,
                now,
            )[i]).expiry_channel == v.expiry_channel && live_items(
                v.entries,
                now,
            )[i].shutdown_channel == v.shutdown_channel,
{
    lemma_filter_members(v.entries, |e: PopResult<T>| !is_expired(e, now));
}

} // verus!
