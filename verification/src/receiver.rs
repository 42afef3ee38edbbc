//! The wait loop of the receiver.
//!
//! A [`NextCall`] decides, one step at a time, what a receive operation does. The caller makes
//! the attempts to receive, waits, and hands the results back.

use std::time::{Duration, Instant};
use vstd::prelude::*;

use crate::clock::{duration_nanos, instant_nanos, instant_plus, is_reading};
use crate::error::{CaducusError, CaducusErrorKind};

verus! {

/// How long a receive operation waits that was given no deadline, in seconds.
pub const DEFAULT_RECEIVE_TIMEOUT_SECS: u64 = 1;

/// How far a receive operation has got.
#[derive(Debug, Clone, Copy, PartialEq, Eq, Structural)]
pub enum NextPhase {
    /// The first attempt to receive is to be made.
    Check,
    /// A waiter is armed, and the second attempt is to be made.
    Recheck,
    /// Both attempts found the buffer empty.
    Wait,
    /// The operation has returned.
    Done,
}

/// What a receive operation does next.
#[verifier::reject_recursive_types(T)]
pub enum NextAction<T> {
    /// Attempt to receive.
    Attempt,
    /// Arm a waiter for the next wakeup, then attempt to receive again. Arming first makes sure
    /// that no wakeup between the attempt and the wait is lost.
    ArmAndAttempt,
    /// Wait for the wakeup, but no longer than this.
    Sleep(Duration),
    /// Return this to the caller.
    Return(Result<T, CaducusError>),
}

/// One receive operation.
#[derive(Debug, Clone, Copy)]
pub struct NextCall {
    /// When the operation gives up. Computed once, and not reset by wakeups.
    pub deadline: Instant,
    /// How far the operation has got.
    pub phase: NextPhase,
}

/// The deadline of a receive operation started at `now`: the given one, or the default timeout
/// later than `now`. Where that point cannot be represented it is `now`, so that there always is a
/// deadline.
pub open spec fn effective_deadline(deadline: Option<Instant>, now: Instant) -> Instant {
    match deadline {
        Some(d) => d,
        None => match instant_plus(now, (DEFAULT_RECEIVE_TIMEOUT_SECS * 1_000_000_000) as nat) {
            Some(d) => d,
            None => now,
        },
    }
}

/// How long after its start at `now` a receive operation gives up that was given no deadline, in
/// nanoseconds.
pub open spec fn default_wait(now: Instant) -> int {
    if instant_plus(now, (DEFAULT_RECEIVE_TIMEOUT_SECS * 1_000_000_000) as nat) is Some {
        DEFAULT_RECEIVE_TIMEOUT_SECS * 1_000_000_000
    } else {
        0
    }
}

/// The step from `before` to `after` that does `action`, when an attempt to receive had the given
/// outcome and the time is `now`.
///
/// An item or an error is returned. If the first attempt found the buffer empty a waiter is armed
/// and a second attempt made. If that found it empty too, the operation waits for the rest of the
/// time to its deadline, or times out if there is none. The deadline never changes.
pub open spec fn attempt_step<T>(
    before: NextCall,
    outcome: Result<Option<T>, CaducusError>,
    now: Instant,
    action: NextAction<T>,
    after: NextCall,
) -> bool {
    &&& after.deadline == before.deadline
    &&& match outcome {
        Ok(Some(item)) => {
            &&& action == NextAction::Return(Ok(item))
            &&& after.phase is Done
        },
        Err(e) => {
            &&& action == NextAction::<T>::Return(Err(e))
            &&& after.phase is Done
        },
        Ok(None) => if before.phase is Check {
            &&& action is ArmAndAttempt
            &&& after.phase is Recheck
        } else if instant_nanos(before.deadline) <= instant_nanos(now) {
            &&& action == NextAction::<T>::Return(
                Err(CaducusError { kind: CaducusErrorKind::Timeout }),
            )
            &&& after.phase is Done
        } else {
            &&& action matches NextAction::Sleep(d)
            &&& duration_nanos(d) == instant_nanos(before.deadline) - instant_nanos(now)
            &&& after.phase is Wait
        },
    }
}

/// The step from `before` to `after` that does `action`, when the wait ended with a wakeup or with
/// the end of the time: a wakeup starts over, the end of the time times out. The deadline never
/// changes.
pub open spec fn wait_step<T>(
    before: NextCall,
    woken: bool,
    action: NextAction<T>,
    after: NextCall,
) -> bool {
    &&& after.deadline == before.deadline
    &&& if woken {
        &&& action is Attempt
        &&& after.phase is Check
    } else {
        &&& action == NextAction::<T>::Return(
            Err(CaducusError { kind: CaducusErrorKind::Timeout }),
        )
        &&& after.phase is Done
    }
}

impl NextCall {
    /// Starts a receive operation at `now`.
    pub fn start_at(deadline: Option<Instant>, now: Instant) -> (call: Self)
        ensures
            call == (NextCall {
                deadline: effective_deadline(deadline, now),
                phase: NextPhase::Check,
            }),
            deadline is None ==> instant_nanos(call.deadline) == instant_nanos(now) + default_wait(
                now,
            ),
    {
        let effective: Instant = match deadline {
            Some(d) => d,
            None => match now.checked_add(Duration::from_secs(DEFAULT_RECEIVE_TIMEOUT_SECS)) {
                Some(d) => d,
                None => now,
            },
        };
        NextCall { deadline: effective, phase: NextPhase::Check }
    }

    /// Starts a receive operation.
    pub fn start(deadline: Option<Instant>) -> (call: Self)
        ensures
            call.phase is Check,
            deadline matches Some(d) ==> call.deadline == d,
            exists|now: Instant|
                {
                    &&& is_reading(now)
                    &&& call.deadline == #[trigger] effective_deadline(deadline, now)
                    &&& deadline is None ==> instant_nanos(call.deadline) == instant_nanos(now)
                        + default_wait(now)
                },
    {
        let now: Instant = Instant::now();
        Self::start_at(deadline, now)
    }

    /// Takes the outcome of an attempt to receive, at the time `now`.
    pub fn attempted_at<T>(
        &mut self,
        outcome: Result<Option<T>, CaducusError>,
        now: Instant,
    ) -> (action: NextAction<T>)
        ensures
            attempt_step(*old(self), outcome, now, action, *final(self)),
    {
        match outcome {
            Ok(Some(item)) => {
                self.phase = NextPhase::Done;
                NextAction::Return(Ok(item))
            },
            Err(e) => {
                self.phase = NextPhase::Done;
                NextAction::Return(Err(e))
            },
            Ok(None) => if self.phase == NextPhase::Check {
                self.phase = NextPhase::Recheck;
                NextAction::ArmAndAttempt
            } else {
                let remaining: Duration = self.deadline.saturating_duration_since(now);
                let nanos: u128 = remaining.as_nanos();
                if nanos == 0 {
                    self.phase = NextPhase::Done;
                    NextAction::Return(Err(CaducusError { kind: CaducusErrorKind::Timeout }))
                } else {
                    self.phase = NextPhase::Wait;
                    NextAction::Sleep(remaining)
                }
            },
        }
    }

    /// Takes the outcome of an attempt to receive.
    pub fn attempted<T>(&mut self, outcome: Result<Option<T>, CaducusError>) -> (action: NextAction<
        T,
    >)
        ensures
            exists|now: Instant|
                is_reading(now) && #[trigger] attempt_step(
                    *old(self),
                    outcome,
                    now,
                    action,
                    *final(self),
                ),
    {
        let now: Instant = Instant::now();
        self.attempted_at(outcome, now)
    }

    /// Takes the end of the wait: a wakeup starts over, the end of the time times out.
    pub fn waited<T>(&mut self, woken: bool) -> (action: NextAction<T>)
        ensures
            wait_step(*old(self), woken, action, *final(self)),
    {
        if woken {
            self.phase = NextPhase::Check;
            NextAction::Attempt
        } else {
            self.phase = NextPhase::Done;
            NextAction::Return(Err(CaducusError { kind: CaducusErrorKind::Timeout }))
        }
    }
}

} // verus!
