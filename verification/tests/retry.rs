//! Waiting for something to become available.
use std::time::{Duration, Instant};

use aldis::retry::{retry_until_available, RetryStep};

fn wait<T, E>(
    timeout: Duration,
    poll_interval: Duration,
    mut operation: impl FnMut() -> Result<T, E>,
) -> Result<T, E> {
    let deadline = Instant::now() + timeout;
    loop {
        let attempt = operation();
        match retry_until_available(attempt, Instant::now() >= deadline, poll_interval.as_nanos()) {
            RetryStep::Done(result) => return result,
            RetryStep::Pause(nanos) => {
                let next = Instant::now() + Duration::from_nanos(nanos as u64);
                while Instant::now() < next {}
            }
        }
    }
}

#[test]
fn retries_resource_access_until_it_succeeds() {
    let mut attempts = 0;
    let result = wait(Duration::from_millis(50), Duration::ZERO, || {
        attempts += 1;
        (attempts == 3).then_some("ready").ok_or("not ready")
    });

    assert_eq!(result, Ok("ready"));
    assert_eq!(attempts, 3);
}

#[test]
fn returns_the_last_error_once_the_deadline_passes() {
    let result = wait(Duration::from_millis(20), Duration::from_millis(5), || {
        Err::<(), _>("still not ready")
    });

    assert_eq!(result, Err("still not ready"));
}

#[test]
fn never_pauses_for_less_than_ten_milliseconds() {
    assert_eq!(
        retry_until_available(Err::<(), _>("no"), false, 1),
        RetryStep::Pause(10_000_000)
    );
    assert_eq!(
        retry_until_available(Err::<(), _>("no"), false, 20_000_000),
        RetryStep::Pause(20_000_000)
    );
}
