use speaktype_cloud::error::AppError;
use speaktype_cloud::transcription::{is_current_job, retries_exhausted, JobId, RetryPolicy, RetryStep};
use std::time::Duration;

#[test]
fn deterministic_backoff_is_bounded() {
    let policy = RetryPolicy::new(5, Duration::from_millis(100), Duration::from_millis(250));

    assert_eq!(policy.delay_before_retry(0), Duration::from_millis(100));
    assert_eq!(policy.delay_before_retry(1), Duration::from_millis(200));
    assert_eq!(policy.delay_before_retry(2), Duration::from_millis(250));
    assert_eq!(policy.max_attempts(), 5);
}

#[test]
fn backoff_saturates_for_large_retry_indices() {
    let policy = RetryPolicy::new(0, Duration::from_secs(u64::MAX), Duration::MAX);
    assert_eq!(policy.max_attempts(), 1);
    assert_eq!(policy.delay_before_retry(1_000), Duration::MAX);
    let default = RetryPolicy::default();
    assert_eq!(default.max_attempts(), 3);
    assert_eq!(default.delay_before_retry(0), Duration::from_millis(500));
    assert_eq!(default.delay_before_retry(5), Duration::from_secs(2));
}

#[test]
fn only_retryable_errors_are_retried_with_a_bound() {
    let policy = RetryPolicy::new(3, Duration::ZERO, Duration::ZERO);
    let retryable = AppError::provider("busy".to_string(), true);
    let permanent = AppError::provider("denied".to_string(), false);
    let mut calls = 0;
    let mut attempt = 0;
    let last = loop {
        calls += 1;
        match policy.after_attempt::<()>(attempt, Err(retryable.clone())) {
            RetryStep::Wait(_) => attempt += 1,
            other => break other,
        }
    };
    assert_eq!(calls, 3);
    assert!(matches!(last, RetryStep::Fail(AppError::Provider { retryable: true, .. })));
    assert!(matches!(policy.after_attempt::<()>(0, Err(permanent.clone())), RetryStep::Fail(_)));
    assert!(matches!(policy.after_attempt(0, Ok::<u8, AppError>(7)), RetryStep::Return(7)));
    assert!(!policy.should_retry(0, &permanent));
    assert!(!policy.should_retry(0, &AppError::Io("disk".to_string())));
}

#[test]
fn job_ids_compare_by_value() {
    assert!(is_current_job(Some(JobId(0)), JobId(0)));
}

#[test]
fn retries_wait_the_growing_delay_and_then_give_up() {
    let policy = RetryPolicy::default();
    let busy = AppError::provider("busy".to_string(), true);
    match policy.after_attempt::<()>(0, Err(busy.clone())) {
        RetryStep::Wait(d) => assert_eq!(d, Duration::from_millis(500)),
        _ => panic!("the first failure is retried"),
    }
    match policy.after_attempt::<()>(1, Err(busy.clone())) {
        RetryStep::Wait(d) => assert_eq!(d, Duration::from_millis(1000)),
        _ => panic!("the second failure is retried"),
    }
    assert!(matches!(policy.after_attempt::<()>(2, Err(busy)), RetryStep::Fail(_)));
    match retries_exhausted() {
        AppError::Transcription(m) => assert_eq!(m, "重試次數已達上限"),
        _ => panic!("exhausted retries are a transcription error"),
    }
}
