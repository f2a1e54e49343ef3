use quick_repertoire::retry::{retry_after_delay, RetryDirective, RetryPolicy, RetryStep};

const MILLI: u128 = 1_000_000;

#[test]
fn retry_policy_caps_exponential_backoff() {
    let policy = RetryPolicy::new(4, 100 * MILLI, 250 * MILLI);

    assert_eq!(policy.delay_for_retry(1), 100 * MILLI);
    assert_eq!(policy.delay_for_retry(2), 200 * MILLI);
    assert_eq!(policy.delay_for_retry(3), 250 * MILLI);
    assert_eq!(policy.delay_for_retry(4), 250 * MILLI);
}

#[test]
fn after_failure_retries_until_the_last_attempt() {
    let policy = RetryPolicy::new(3, 0, 0);
    assert!(matches!(policy.after_failure(1, RetryDirective::retry("temporary failure")), RetryStep::WaitThenRetry(_)));
    assert!(matches!(policy.after_failure(3, RetryDirective::retry("temporary failure")), RetryStep::Stop("temporary failure")));
}

#[test]
fn after_failure_stops_on_non_retryable_errors() {
    let policy = RetryPolicy::new(3, 0, 0);
    assert!(matches!(policy.after_failure(1, RetryDirective::fail("permanent failure")), RetryStep::Stop("permanent failure")));
}

#[test]
fn retry_after_header_is_read_as_seconds() {
    assert_eq!(retry_after_delay(Some(" 2 ")), Some(2_000_000_000));
    assert_eq!(retry_after_delay(Some("soon")), None);
    assert_eq!(retry_after_delay(None), None);
}

/// Runs `operation` under `policy` the way the program's retry loop does, counting the
/// attempts and the waits.
fn run_with_retry<T, E>(
    policy: RetryPolicy,
    mut operation: impl FnMut(usize) -> Result<T, RetryDirective<E>>,
) -> (Result<T, E>, usize, Vec<u128>) {
    let mut waits = Vec::new();
    let mut attempt = 1;
    loop {
        match operation(attempt) {
            Ok(value) => return (Ok(value), attempt, waits),
            Err(directive) => match policy.after_failure(attempt, directive) {
                RetryStep::Stop(error) => return (Err(error), attempt, waits),
                RetryStep::WaitThenRetry(delay) => waits.push(delay),
            },
        }
        attempt += 1;
    }
}

#[test]
fn retry_with_backoff_retries_until_the_operation_succeeds() {
    let (result, attempts, waits) = run_with_retry(RetryPolicy::new(3, 0, 0), |attempt| {
        if attempt == 1 {
            Err(RetryDirective::retry("temporary failure"))
        } else {
            Ok("success")
        }
    });
    assert_eq!(result, Ok("success"));
    assert_eq!(attempts, 2);
    assert_eq!(waits, vec![0]);
}

#[test]
fn retry_with_backoff_stops_on_non_retryable_errors() {
    let (result, attempts, _) =
        run_with_retry(RetryPolicy::new(3, 0, 0), |_| Err::<(), _>(RetryDirective::fail("permanent failure")));
    assert_eq!(result, Err("permanent failure"));
    assert_eq!(attempts, 1);
}
