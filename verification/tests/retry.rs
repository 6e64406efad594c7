use wataxrate::{
    Attempt, Code, DecodeError, Decimal, Retry, Step, TaxInfo, TaxInfoError,
    DEFAULT_TIMEOUT_MILLIS, MAX_ATTEMPTS,
};

fn sample(code: Code) -> TaxInfo {
    TaxInfo {
        loccode: 1726,
        rate: Decimal { negative: false, unscaled: 101, scale: 3 },
        code,
        localrate: None,
        debughint: None,
        address: None,
        taxrate: None,
    }
}

/// Runs a lookup as a caller does, with a fetcher that ends its attempts as
/// the script says, and counts the calls of the fetcher.
fn drive(script: Vec<Attempt>) -> (Result<TaxInfo, TaxInfoError>, usize) {
    let mut script = script.into_iter();
    let mut calls = 0;
    let mut step = Retry::new().step();
    loop {
        match step {
            Step::Done(result) => return (result, calls),
            Step::Try(state) => {
                calls += 1;
                let attempt = script.next().expect("the fetcher was called once too often");
                step = state.observe(attempt);
            }
        }
    }
}

fn internal_error() -> TaxInfoError {
    TaxInfoError::Dor((Code::InternalError, sample(Code::InternalError)))
}

#[test]
fn the_budget_is_three_short_attempts() {
    assert_eq!(MAX_ATTEMPTS, 3);
    assert_eq!(Retry::new().remaining, 3);
    assert!(DEFAULT_TIMEOUT_MILLIS >= 1_500 && DEFAULT_TIMEOUT_MILLIS <= 2_500);
}

#[test]
fn a_failure_that_will_not_pass_costs_one_call() {
    let (result, calls) = drive(vec![Attempt::Finished(Err(TaxInfoError::Internal(
        DecodeError::Markup,
    )))]);
    assert_eq!(result, Err(TaxInfoError::Internal(DecodeError::Markup)));
    assert_eq!(calls, 1);

    let refused = TaxInfoError::Dor((Code::NoAddrNoZips, sample(Code::NoAddrNoZips)));
    let (result, calls) = drive(vec![Attempt::Finished(Err(refused))]);
    assert_eq!(
        result,
        Err(TaxInfoError::Dor((Code::NoAddrNoZips, sample(Code::NoAddrNoZips))))
    );
    assert_eq!(calls, 1);

    let (result, calls) = drive(vec![Attempt::Finished(Err(TaxInfoError::Http(Some(404))))]);
    assert_eq!(result, Err(TaxInfoError::Http(Some(404))));
    assert_eq!(calls, 1);
}

#[test]
fn a_success_after_two_timeouts_costs_three_calls() {
    let (result, calls) = drive(vec![
        Attempt::TimedOut,
        Attempt::TimedOut,
        Attempt::Finished(Ok(sample(Code::AddrFound))),
    ]);
    assert_eq!(result, Ok(sample(Code::AddrFound)));
    assert_eq!(calls, 3);
}

#[test]
fn a_fetcher_that_always_times_out_is_called_max_attempts_times() {
    let (result, calls) = drive(vec![Attempt::TimedOut, Attempt::TimedOut, Attempt::TimedOut]);
    assert_eq!(result, Err(TaxInfoError::NoMoreRetries));
    assert_eq!(calls, MAX_ATTEMPTS);
}

#[test]
fn a_success_at_once_costs_one_call() {
    let (result, calls) = drive(vec![Attempt::Finished(Ok(sample(Code::AddrFound)))]);
    assert_eq!(result, Ok(sample(Code::AddrFound)));
    assert_eq!(calls, 1);
}

#[test]
fn failures_that_may_pass_are_retried_like_timeouts() {
    let (result, calls) = drive(vec![
        Attempt::Finished(Err(internal_error())),
        Attempt::Finished(Err(TaxInfoError::Http(Some(503)))),
        Attempt::Finished(Err(TaxInfoError::Http(None))),
    ]);
    assert_eq!(result, Err(TaxInfoError::NoMoreRetries));
    assert_eq!(calls, 3);

    let (result, calls) = drive(vec![
        Attempt::Finished(Err(internal_error())),
        Attempt::Finished(Ok(sample(Code::AddrFound))),
    ]);
    assert_eq!(result, Ok(sample(Code::AddrFound)));
    assert_eq!(calls, 2);
}

#[test]
fn the_last_error_is_not_kept_when_the_budget_is_spent() {
    let (result, calls) = drive(vec![
        Attempt::TimedOut,
        Attempt::Finished(Err(internal_error())),
        Attempt::Finished(Err(internal_error())),
    ]);
    assert_eq!(result, Err(TaxInfoError::NoMoreRetries));
    assert_eq!(calls, 3);
}

#[test]
fn a_final_failure_on_the_last_attempt_is_returned_as_it_is() {
    let (result, calls) = drive(vec![
        Attempt::TimedOut,
        Attempt::TimedOut,
        Attempt::Finished(Err(TaxInfoError::Http(Some(400)))),
    ]);
    assert_eq!(result, Err(TaxInfoError::Http(Some(400))));
    assert_eq!(calls, 3);
}

#[test]
fn each_step_takes_one_attempt_from_the_budget() {
    assert_eq!(Retry { remaining: 2 }.step(), Step::Try(Retry { remaining: 1 }));
    assert_eq!(Retry { remaining: 1 }.step(), Step::Try(Retry { remaining: 0 }));
    assert_eq!(Retry { remaining: 0 }.step(), Step::Done(Err(TaxInfoError::NoMoreRetries)));
    assert_eq!(
        Retry { remaining: 0 }.observe(Attempt::TimedOut),
        Step::Done(Err(TaxInfoError::NoMoreRetries))
    );
    assert_eq!(
        Retry { remaining: 0 }.observe(Attempt::Finished(Ok(sample(Code::AddrFound)))),
        Step::Done(Ok(sample(Code::AddrFound)))
    );
    assert_eq!(
        Retry { remaining: 5 }.observe(Attempt::TimedOut),
        Step::Try(Retry { remaining: 4 })
    );
}
