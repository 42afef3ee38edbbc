//! What the channel decides around its buffer: deadlines, errors, the build, the receive operation,
//! the reclaimer's wait and the count of senders.

use std::time::Instant;
use tokio::runtime::{Handle, TryCurrentError};
use vstd::prelude::*;

use crate::clock::{
    clamped_ttl, deadline_spec, duration_nanos, instant_nanos, instant_plus, is_deadline,
    is_reading, ttl_in_range,
};
use crate::concurrency::ring_view::{is_expired, RingView};
use crate::concurrency::{DrainMode, DrainResult, PopResult};
use crate::error::{CaducusError, CaducusErrorKind};
use crate::laws::{
    action_before, call_before, is_receive, is_receive_step, law_claim_finds_a_live_item,
    law_claim_is_the_oldest_live_item, law_receive_deadline_is_total, ReceiveEvent, ReceiveStep,
};
use crate::receiver::{
    attempt_step, default_wait, effective_deadline, wait_step, NextAction, NextCall,
};
use crate::reclaimer::{
    drain_outcome, expiry_reports, receive_outcome, received, reclaimed, wait_spec, Received,
    ReclaimPass, ReclaimerWait,
};
use crate::runtime::{is_ambient, runtime_chosen};
use crate::sender::{
    acquired, released, resolved_deadline, resolved_ttl, MpscBuilder, MpscParts, SpscBuilder,
    SpscParts,
};

verus! {

/// A reading of the clock is what `Instant::now` returned, and nothing else.
pub proof fn law_readings_come_from_the_clock(t: Instant)
    ensures
        is_reading(t) <==> call_ensures(Instant::now, (), t),
{
}

/// The ambient runtime is what `Handle::try_current` returned, and nothing else.
pub proof fn law_ambient_runtime_is_asked_for(current: Result<Handle, TryCurrentError>)
    ensures
        is_ambient(current) <==> call_ensures(Handle::try_current, (), current),
{
}

/// A TTL is accepted exactly from one millisecond to 365 days. The TTL in force is the accepted one
/// nearest to the one stored.
pub proof fn law_accepted_ttls(nanos: nat)
    ensures
        ttl_in_range(nanos) <==> 1_000_000 <= nanos && nanos <= 365 * 24 * 60 * 60 * 1_000_000_000,
        nanos < 1_000_000 ==> clamped_ttl(nanos) == 1_000_000,
        1_000_000 <= nanos <= 31_536_000_000_000_000 ==> clamped_ttl(nanos) == nanos,
        nanos > 31_536_000_000_000_000 ==> clamped_ttl(nanos) == 31_536_000_000_000_000,
{
}

/// Every item has a deadline: the TTL after the time of the send, one millisecond after it if that
/// cannot be represented, or that time itself if nothing later can.
pub proof fn law_every_item_has_a_deadline(t: Instant, now: Instant, ttl: nat)
    requires
        is_deadline(t, now, ttl),
    ensures
        t == deadline_spec(now, ttl),
        instant_plus(now, ttl) matches Some(u) ==> {
            &&& t == u
            &&& instant_nanos(t) == instant_nanos(now) + ttl
        },
        instant_plus(now, ttl) is None ==> (instant_plus(now, 1_000_000) matches Some(u) ==> {
            &&& t == u
            &&& instant_nanos(t) == instant_nanos(now) + 1_000_000
        }),
        instant_plus(now, ttl) is None && instant_plus(now, 1_000_000) is None ==> t == now,
{
}

/// An item is live before its deadline and has expired at it and after it.
pub proof fn law_item_expires_at_its_deadline<T>(e: PopResult<T>, now: Instant)
    ensures
        instant_nanos(now) < instant_nanos(e.expires_at) <==> !is_expired(e, now),
        is_expired(e, e.expires_at),
{
}

/// A TTL of an item's own is accepted in the range of the configured one, and counts from the send.
/// Outside the range the item is given back.
pub proof fn law_item_ttl<T>(item: T, ttl: nat, now: Instant)
    ensures
        1_000_000 <= ttl <= 31_536_000_000_000_000 ==> resolved_ttl(item, ttl, now) == Ok::<
            (T, Instant),
            CaducusError<T>,
        >((item, deadline_spec(now, ttl))),
        ttl < 1_000_000 || ttl > 31_536_000_000_000_000 ==> resolved_ttl(item, ttl, now) == Err::<
            (T, Instant),
            CaducusError<T>,
        >(CaducusError { kind: CaducusErrorKind::InvalidTTL(item) }),
{
}

/// A deadline of an item's own is kept as it is if it lies in the future, however far. Otherwise the
/// item is given back.
pub proof fn law_item_deadline<T>(item: T, deadline: Instant, now: Instant)
    ensures
        instant_nanos(now) < instant_nanos(deadline) ==> resolved_deadline(item, deadline, now)
            == Ok::<(T, Instant), CaducusError<T>>((item, deadline)),
        instant_nanos(deadline) <= instant_nanos(now) ==> resolved_deadline(item, deadline, now)
            == Err::<(T, Instant), CaducusError<T>>(
            CaducusError { kind: CaducusErrorKind::InvalidTTL(item) },
        ),
{
}

/// An error gives back the item that it was made with. The kinds that reject no item carry none.
pub proof fn law_errors_carry_the_item<T>(item: T)
    ensures
        CaducusErrorKind::Full(item).carried() == Some(item),
        CaducusErrorKind::Shutdown(item).carried() == Some(item),
        CaducusErrorKind::InvalidPattern(item).carried() == Some(item),
        CaducusErrorKind::InvalidTTL(item).carried() == Some(item),
        CaducusErrorKind::<T>::InvalidArgument.carried() is None,
        CaducusErrorKind::<T>::NoRuntime.carried() is None,
        CaducusErrorKind::<T>::Timeout.carried() is None,
{
}

/// Each kind of error has its text, whatever item it carries.
pub proof fn law_error_texts<T>(item: T)
    ensures
        CaducusErrorKind::Full(item).text() == "full"@,
        CaducusErrorKind::Shutdown(item).text() == "shutdown"@,
        CaducusErrorKind::InvalidPattern(item).text() == "invalid pattern"@,
        CaducusErrorKind::InvalidTTL(item).text() == "invalid ttl"@,
        CaducusErrorKind::<T>::InvalidArgument.text() == "invalid argument"@,
        CaducusErrorKind::<T>::NoRuntime.text() == "no tokio runtime available"@,
        CaducusErrorKind::<T>::Timeout.text() == "timeout"@,
{
}

/// The runtime used is the provided one if there is one, otherwise the ambient one if there is one.
/// Without either the answer is `NoRuntime`, and only then.
pub proof fn law_runtime_choice(
    provided: Option<Handle>,
    current: Result<Handle, TryCurrentError>,
    result: Result<Handle, CaducusError>,
)
    requires
        runtime_chosen(provided, current, result),
    ensures
        provided matches Some(h) ==> result == Ok::<Handle, CaducusError>(h),
        provided is None ==> (current matches Ok(h) ==> result == Ok::<Handle, CaducusError>(h)),
        provided is None && current is Err ==> (result matches Err(e) && e.kind is NoRuntime),
        result is Err ==> provided is None && current is Err,
{
}

/// What building an SPSC channel gives: `NoRuntime` exactly without any runtime, whatever the TTL;
/// otherwise `InvalidArgument` exactly for a TTL outside one millisecond to 365 days; otherwise an
/// open and empty channel of the capacity asked for, which accepts sends exactly while fewer items
/// are held, and whose items report to the channels of the builder.
pub proof fn law_spsc_build<T>(
    builder: SpscBuilder<T>,
    current: Result<Handle, TryCurrentError>,
    result: Result<SpscParts<T>, CaducusError>,
)
    requires
        builder.built_with(current, result),
    ensures
        ({
            let runtime = match builder.runtime {
                Some(h) => Some(h),
                None => match current {
                    Ok(h) => Some(h),
                    Err(_) => None,
                },
            };
            let ttl = duration_nanos(builder.ttl);
            let valid = 1_000_000 <= ttl <= 31_536_000_000_000_000;
            &&& result is Ok <==> runtime is Some && valid
            &&& result matches Err(e) ==> {
                &&& runtime is None <==> e.kind is NoRuntime
                &&& runtime is Some <==> e.kind is InvalidArgument
            }
            &&& result matches Ok(parts) ==> {
                let v = parts.ring@;
                &&& Some(parts.runtime) == runtime
                &&& parts.ring.wf()
                &&& !parts.ring.owed().reclaimer && !parts.ring.owed().receiver
                &&& builder.capacity >= 1 ==> v.capacity == builder.capacity && v.target_capacity
                    == builder.capacity
                &&& builder.capacity == 0 ==> v.capacity == 1 && v.target_capacity == 1
                &&& v.ttl == ttl
                &&& v.mode is Spsc
                &&& v.entries.len() == 0
                &&& !v.shutdown
                &&& !v.ttl_reduced
                &&& v.expiry_channel == builder.expiry_channel
                &&& v.shutdown_channel == builder.shutdown_channel
            }
        }),
{
}

/// What building an MPSC channel gives: as for an SPSC channel, but the report channels of the
/// builder are those of the first sender, which is the only one.
pub proof fn law_mpsc_build<T>(
    builder: MpscBuilder<T>,
    current: Result<Handle, TryCurrentError>,
    result: Result<MpscParts<T>, CaducusError>,
)
    requires
        builder.built_with(current, result),
    ensures
        ({
            let runtime = match builder.runtime {
                Some(h) => Some(h),
                None => match current {
                    Ok(h) => Some(h),
                    Err(_) => None,
                },
            };
            let ttl = duration_nanos(builder.ttl);
            let valid = 1_000_000 <= ttl <= 31_536_000_000_000_000;
            &&& result is Ok <==> runtime is Some && valid
            &&& result matches Err(e) ==> {
                &&& runtime is None <==> e.kind is NoRuntime
                &&& runtime is Some <==> e.kind is InvalidArgument
            }
            &&& result matches Ok(parts) ==> {
                let v = parts.ring@;
                &&& Some(parts.runtime) == runtime
                &&& parts.ring.wf()
                &&& !parts.ring.owed().reclaimer && !parts.ring.owed().receiver
                &&& builder.capacity >= 1 ==> v.capacity == builder.capacity && v.target_capacity
                    == builder.capacity
                &&& builder.capacity == 0 ==> v.capacity == 1 && v.target_capacity == 1
                &&& v.ttl == ttl
                &&& v.mode is Mpsc
                &&& v.entries.len() == 0
                &&& !v.shutdown
                &&& !v.ttl_reduced
                &&& v.expiry_channel is None
                &&& v.shutdown_channel is None
                &&& parts.sender.expiry_channel == builder.expiry_channel
                &&& parts.sender.shutdown_channel == builder.shutdown_channel
                &&& parts.senders@ == 1
            }
        }),
{
}

/// A drain hands the receiver the item that it claimed. Only without one does it matter whether the
/// channel is shut down.
pub proof fn law_claimed_item_is_handed_over<T>(live: Option<PopResult<T>>, is_shutdown: bool)
    ensures
        live matches Some(pop) ==> drain_outcome(live, is_shutdown) == Ok::<
            Option<T>,
            CaducusError,
        >(Some(pop.item)),
        live is None && is_shutdown ==> drain_outcome(live, is_shutdown) == Err::<
            Option<T>,
            CaducusError,
        >(CaducusError { kind: CaducusErrorKind::Shutdown(()) }),
        live is None && !is_shutdown ==> drain_outcome(live, is_shutdown) == Ok::<
            Option<T>,
            CaducusError,
        >(None),
{
}

/// An attempt to receive gives the oldest item whose deadline lies after the time of the attempt,
/// whatever else is in the buffer.
pub proof fn law_attempt_gives_the_oldest_live_item<T>(v: RingView<T>, now: Instant, i: int)
    requires
        0 <= i < v.entries.len(),
        instant_nanos(now) < instant_nanos(v.entries[i].expires_at),
        forall|j: int|
            0 <= j < i ==> instant_nanos((#[trigger] v.entries[j]).expires_at) <= instant_nanos(now),
    ensures
        receive_outcome(v, now) == Ok::<Option<T>, CaducusError>(Some(v.entries[i].item)),
{
    assert(!is_expired(v.entries[i], now));
    law_claim_finds_a_live_item(v, now);
    law_claim_is_the_oldest_live_item(v, now);
    let pop = v.claimed(now, DrainMode::DrainAndClaim)->0;
    let k = choose|k: int|
        {
            &&& 0 <= k < v.entries.len()
            &&& #[trigger] v.entries[k] == pop
            &&& !is_expired(pop, now)
            &&& forall|j: int| 0 <= j < k ==> is_expired(#[trigger] v.entries[j], now)
        };
    if k < i {
        assert(instant_nanos(v.entries[k].expires_at) <= instant_nanos(now));
    }
    if i < k {
        assert(is_expired(v.entries[i], now));
    }
}

/// An attempt that finds no item with a deadline after its time gives none: `Shutdown` if the
/// channel is shut down, otherwise nothing.
pub proof fn law_attempt_without_a_live_item<T>(v: RingView<T>, now: Instant)
    requires
        forall|j: int|
            0 <= j < v.entries.len() ==> instant_nanos((#[trigger] v.entries[j]).expires_at)
                <= instant_nanos(now),
    ensures
        receive_outcome(v, now) == if v.shutdown {
            Err::<Option<T>, CaducusError>(CaducusError { kind: CaducusErrorKind::Shutdown(()) })
        } else {
            Ok(None)
        },
{
    law_claim_finds_a_live_item(v, now);
    assert forall|j: int| 0 <= j < v.entries.len() implies is_expired(
        #[trigger] v.entries[j],
        now,
    ) by {
        assert(instant_nanos(v.entries[j].expires_at) <= instant_nanos(now));
    }
}

/// The deadline of a receive operation is the one given. Without one it is one second after the
/// start, or the start itself if that cannot be represented.
pub proof fn law_receive_starts_with_its_deadline(deadline: Option<Instant>, now: Instant)
    ensures
        deadline matches Some(d) ==> effective_deadline(deadline, now) == d,
        deadline is None ==> {
            &&& instant_plus(now, 1_000_000_000) matches Some(d) ==> effective_deadline(
                deadline,
                now,
            ) == d && default_wait(now) == 1_000_000_000
            &&& instant_plus(now, 1_000_000_000) is None ==> effective_deadline(deadline, now)
                == now && default_wait(now) == 0
        },
{
}

/// Whatever the operation did before, an item that an attempt got is returned, and so is an error.
pub proof fn law_what_an_attempt_got_is_returned<T>(
    before: NextCall,
    outcome: Result<Option<T>, CaducusError>,
    now: Instant,
    action: NextAction<T>,
    after: NextCall,
)
    requires
        attempt_step(before, outcome, now, action, after),
    ensures
        outcome matches Ok(Some(item)) ==> action == NextAction::Return(Ok(item)),
        outcome matches Err(e) ==> action == NextAction::<T>::Return(Err(e)),
        outcome matches Ok(None) ==> !(action matches NextAction::Return(Ok(_))),
        action !is Attempt,
        after.deadline == before.deadline,
{
}

/// A receive operation loses nothing: in every step, at whatever point of the operation, an attempt
/// that claimed an item returns that item, and an attempt on a channel that is shut down returns
/// `Shutdown`.
pub proof fn law_what_was_found_is_returned<T>(
    deadline: Option<Instant>,
    start: Instant,
    steps: Seq<ReceiveStep<T>>,
    i: int,
)
    requires
        is_receive(deadline, start, steps),
        0 <= i < steps.len(),
    ensures
        steps[i].event matches ReceiveEvent::Attempted { buffer, at, now } ==> {
            &&& buffer.claimed(at, DrainMode::DrainAndClaim) matches Some(pop) ==> steps[i].action
                == NextAction::Return(Ok(pop.item))
            &&& buffer.shutdown ==> steps[i].action == NextAction::<T>::Return(
                Err(CaducusError { kind: CaducusErrorKind::Shutdown(()) }),
            )
        },
{
    assert(is_receive_step(
        action_before(steps, i),
        call_before(deadline, start, steps, i),
        steps[i],
    ));
    if let ReceiveEvent::Attempted { buffer, at, now } = steps[i].event {
        law_claim_finds_a_live_item(buffer, at);
    }
}

/// How a receive operation goes on that has found nothing, at whatever point. After a first attempt
/// it arms a waiter and makes a second one. After that it times out if its deadline has come, and
/// otherwise sleeps for exactly the rest of the time. A wakeup makes it attempt again, the end of
/// the sleep makes it time out.
pub proof fn law_how_a_receive_goes_on<T>(
    deadline: Option<Instant>,
    start: Instant,
    steps: Seq<ReceiveStep<T>>,
    i: int,
)
    requires
        is_receive(deadline, start, steps),
        0 <= i < steps.len(),
    ensures
        ({
            let end = effective_deadline(deadline, start);
            let first = i == 0 || steps[i - 1].action is Attempt;
            match steps[i].event {
                ReceiveEvent::Attempted { buffer, at, now } => !buffer.shutdown && buffer.claimed(
                    at,
                    DrainMode::DrainAndClaim,
                ) is None ==> {
                    &&& first ==> steps[i].action is ArmAndAttempt
                    &&& !first && instant_nanos(end) <= instant_nanos(now) ==> steps[i].action
                        == NextAction::<T>::Return(
                        Err(CaducusError { kind: CaducusErrorKind::Timeout }),
                    )
                    &&& !first && instant_nanos(now) < instant_nanos(end) ==> {
                        &&& steps[i].action matches NextAction::Sleep(d)
                        &&& instant_nanos(now) + duration_nanos(d) == instant_nanos(end)
                    }
                },
                ReceiveEvent::Waited { woken } => {
                    &&& woken ==> steps[i].action is Attempt
                    &&& !woken ==> steps[i].action == NextAction::<T>::Return(
                        Err(CaducusError { kind: CaducusErrorKind::Timeout }),
                    )
                },
            }
        }),
{
    let before = call_before(deadline, start, steps, i);
    assert(is_receive_step(action_before(steps, i), before, steps[i]));
    if i > 0 {
        law_receive_deadline_is_total(deadline, start, steps, i - 1);
        assert(is_receive_step(
            action_before(steps, i - 1),
            call_before(deadline, start, steps, i - 1),
            steps[i - 1],
        ));
    }
}

/// A receiver that is woken gets what woke it: whenever the operation is woken from its sleep and
/// the next attempt finds an item that is live, the operation returns the oldest one.
pub proof fn law_woken_receiver_gets_the_item<T>(
    deadline: Option<Instant>,
    start: Instant,
    steps: Seq<ReceiveStep<T>>,
    i: int,
    buffer: RingView<T>,
    at: Instant,
    now: Instant,
    k: int,
)
    requires
        is_receive(deadline, start, steps),
        0 < i < steps.len(),
        steps[i - 1].event == (ReceiveEvent::<T>::Waited { woken: true }),
        steps[i].event == (ReceiveEvent::Attempted { buffer, at, now }),
        0 <= k < buffer.entries.len(),
        instant_nanos(at) < instant_nanos(buffer.entries[k].expires_at),
        forall|j: int|
            0 <= j < k ==> instant_nanos((#[trigger] buffer.entries[j]).expires_at)
                <= instant_nanos(at),
    ensures
        steps[i].action == NextAction::Return(Ok(buffer.entries[k].item)),
{
    assert(is_receive_step(
        action_before(steps, i),
        call_before(deadline, start, steps, i),
        steps[i],
    ));
    law_attempt_gives_the_oldest_live_item(buffer, at, k);
}

/// A wait that ends with a wakeup is followed by an attempt, one that ends without by a timeout.
pub proof fn law_end_of_a_wait<T>(
    before: NextCall,
    woken: bool,
    action: NextAction<T>,
    after: NextCall,
)
    requires
        wait_step(before, woken, action, after),
    ensures
        woken <==> action is Attempt,
        !woken <==> action == NextAction::<T>::Return(
            Err(CaducusError { kind: CaducusErrorKind::Timeout }),
        ),
        after.deadline == before.deadline,
{
}

/// The reclaimer sleeps until the soonest deadline if it lies in the future, and makes another pass
/// at once if it does not. Without items it waits for a wakeup.
pub proof fn law_reclaimer_sleeps_until_the_deadline(next_deadline: Option<Instant>, now: Instant)
    ensures
        next_deadline is None <==> wait_spec(next_deadline, now) is Notified,
        next_deadline matches Some(d) ==> {
            &&& instant_nanos(now) < instant_nanos(d) <==> wait_spec(next_deadline, now)
                == ReclaimerWait::Until(d)
            &&& instant_nanos(d) <= instant_nanos(now) <==> wait_spec(next_deadline, now) is Again
        },
{
}

/// A pass of the reclaimer wakes the receiver exactly if it removed items from an open channel and
/// others are left. It ends the reclaimer exactly if the channel is shut down, and never hides the
/// next deadline.
pub proof fn law_reclaimer_pass<T>(result: DrainResult<T>, pass: ReclaimPass<T>)
    requires
        call_ensures(reclaimed::<T>, (result,), pass),
    ensures
        pass.wake_receiver <==> !result.is_shutdown && result.expired@.len() > 0
            && result.next_deadline is Some,
        pass.exit <==> result.is_shutdown,
        pass.next_deadline == result.next_deadline,
        pass.reports@ == expiry_reports(result.expired@),
{
}

/// What the receiver gets of a drain is what the drain claimed, and what it found expired is
/// reported.
pub proof fn law_receiver_gets_what_was_claimed<T>(result: DrainResult<T>, got: Received<T>)
    requires
        call_ensures(received::<T>, (result,), got),
    ensures
        result.live matches Some(pop) ==> got.outcome == Ok::<Option<T>, CaducusError>(
            Some(pop.item),
        ),
        result.live is None ==> (result.is_shutdown <==> got.outcome is Err) && (
        !result.is_shutdown <==> got.outcome == Ok::<Option<T>, CaducusError>(None)),
        got.outcome matches Err(e) ==> e.kind is Shutdown,
        got.reports@ == expiry_reports(result.expired@),
{
}

/// A clone adds one sender and a drop takes one away, as far as senders can be counted. A drop
/// undoes a clone.
pub proof fn law_clones_and_drops_of_senders(n: nat)
    requires
        n <= usize::MAX,
    ensures
        n < usize::MAX ==> acquired(n) == n + 1,
        n == usize::MAX ==> acquired(n) == 0,
        n > 0 ==> released(n) == n - 1,
        n == 0 ==> released(n) == usize::MAX,
        released(acquired(n)) == n,
        acquired(released(n)) == n,
{
}

} // verus!
