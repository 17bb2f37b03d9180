use slack_tui::typesafe::{classify, classify_failure, missing, retry_after, Failure, Unavailable};

#[test]
fn failures_split_into_retryable_and_final() {
    assert!(matches!(classify_failure(503, "busy"), Failure::Retryable(_)));
    assert!(matches!(classify_failure(529, "overloaded"), Failure::Retryable(_)));
    let quota = classify_failure(429, "credit balance too low").into_unavailable();
    assert!(quota.0.starts_with("quota exhausted"), "{}", quota.0);
    assert!(classify_failure(402, "pay up").into_unavailable().0.starts_with("quota exhausted"));
    assert!(classify_failure(401, "nope").into_unavailable().0.contains("API key rejected"));
    assert_eq!(classify_failure(400, "bad state"), Failure::Final(Unavailable("HTTP 400: bad state".into())));
}

#[test]
fn the_reasons_read_as_shown() {
    assert_eq!(
        classify_failure(402, "out of credits").into_unavailable(),
        Unavailable("quota exhausted (HTTP 402: out of credits)".into())
    );
    assert_eq!(
        classify_failure(401, "nope").into_unavailable(),
        Unavailable("API key rejected (HTTP 401), check the keychain entry".into())
    );
    assert_eq!(classify_failure(500, "oops"), Failure::Retryable(Unavailable("HTTP 500: oops".into())));
    assert_eq!(classify_failure(7, "odd"), Failure::Final(Unavailable("HTTP 7: odd".into())));
}

#[test]
fn a_quota_word_in_any_case_is_final() {
    assert!(matches!(classify_failure(503, "Billing problem"), Failure::Final(_)));
    assert!(matches!(classify(503, "Billing problem", "billing problem"), Failure::Final(_)));
    assert!(matches!(classify(503, "Billing problem", "Billing problem"), Failure::Retryable(_)));
}

#[test]
fn a_missing_answer_is_unavailable() {
    assert_eq!(missing("urgent"), Unavailable("no answer for `urgent`".into()));
    assert_eq!(Unavailable("no key".into()).notice(), "⚠ typesafe unavailable: no key");
}

#[test]
fn retryable_failures_wait_one_then_four_seconds_then_give_up() {
    let busy = || classify_failure(503, "busy");
    assert_eq!(retry_after(0, &busy()), Some(1000));
    assert_eq!(retry_after(1, &busy()), Some(4000));
    assert_eq!(retry_after(2, &busy()), None);
    assert_eq!(retry_after(0, &classify_failure(402, "out of credits")), None, "quota is final");
}
