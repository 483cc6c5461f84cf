//! Poll-until-ready decisions shared by USB, CAN, and Moonraker readiness waits.
use vstd::prelude::*;

verus! {

/// The shortest pause between two attempts, in nanoseconds.
pub const MINIMUM_POLL_NANOS: u128 = 10_000_000;

/// What a wait does after one attempt.
#[derive(Debug, PartialEq, Eq)]
pub enum RetryStep<T, E> {
    /// The wait is over with this outcome.
    Done(Result<T, E>),
    /// Another attempt is due after this many nanoseconds.
    Pause(u128),
}

/// What follows one attempt.
pub open spec fn retry_step<T, E>(
    attempt: Result<T, E>,
    deadline_passed: bool,
    poll_interval_nanos: u128,
) -> RetryStep<T, E> {
    match attempt {
        Ok(_) => RetryStep::Done(attempt),
        Err(_) => if deadline_passed {
            RetryStep::Done(attempt)
        } else {
            RetryStep::Pause(
                if poll_interval_nanos < MINIMUM_POLL_NANOS {
                    MINIMUM_POLL_NANOS
                } else {
                    poll_interval_nanos
                },
            )
        },
    }
}

/// Decides how a wait goes on after one attempt of an operation, given whether its deadline has
/// passed.
///
/// It ends with the first success, or with the last error once the deadline passes; between
/// attempts it pauses for `poll_interval` (floored to 10ms).
pub fn retry_until_available<T, E>(
    attempt: Result<T, E>,
    deadline_passed: bool,
    poll_interval_nanos: u128,
) -> (step: RetryStep<T, E>)
    ensures
        step == retry_step(attempt, deadline_passed, poll_interval_nanos),
{
    match attempt {
        Ok(value) => RetryStep::Done(Ok(value)),
        Err(error) => if deadline_passed {
            RetryStep::Done(Err(error))
        } else if poll_interval_nanos < MINIMUM_POLL_NANOS {
            RetryStep::Pause(MINIMUM_POLL_NANOS)
        } else {
            RetryStep::Pause(poll_interval_nanos)
        },
    }
}

/// The wait ends with the attempt itself, as soon as one succeeds or the deadline has passed; until
/// then it pauses.
pub proof fn law_wait_ends_with_success_or_the_deadline<T, E>(
    attempt: Result<T, E>,
    deadline_passed: bool,
    poll_interval_nanos: u128,
)
    ensures
        ({
            let step = retry_step(attempt, deadline_passed, poll_interval_nanos);
            &&& step is Done <==> attempt is Ok || deadline_passed
            &&& step is Done ==> step->Done_0 == attempt
        }),
{
}

/// A pause is never shorter than ten milliseconds nor than the wanted interval, and it is one of
/// the two.
pub proof fn law_pause_is_long_enough<T, E>(
    attempt: Result<T, E>,
    deadline_passed: bool,
    poll_interval_nanos: u128,
)
    requires
        retry_step(attempt, deadline_passed, poll_interval_nanos) is Pause,
    ensures
        ({
            let pause = retry_step(attempt, deadline_passed, poll_interval_nanos)->Pause_0;
            &&& pause >= 10_000_000
            &&& pause >= poll_interval_nanos
            &&& pause == 10_000_000 || pause == poll_interval_nanos
        }),
{
}

} // verus!
