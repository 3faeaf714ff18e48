use disco::retry::{Fixed, OperationResult, RetryDecision, RetryError, RetryState};

/// Drives the retry bookkeeping over scripted outcomes, as the async driver does.
fn run(
    mut delays: impl FnMut() -> Option<u128>,
    outcomes: Vec<OperationResult<u32, &'static str>>,
) -> (Result<u32, RetryError<&'static str>>, Vec<u128>) {
    let mut state = RetryState::new();
    let mut waited = Vec::new();
    for outcome in outcomes {
        match state.on_outcome(outcome) {
            RetryDecision::Done(r) => return (r, waited),
            RetryDecision::Backoff(e) => {
                let d = delays();
                if let Some(err) = state.on_backoff(e, d) {
                    return (Err(err), waited);
                }
                waited.push(d.unwrap());
            }
        }
    }
    panic!("outcomes ran out");
}

#[test]
fn fixed_schedules() {
    let mut f = Fixed::from_secs(5);
    assert_eq!(f.next(), Some(5_000_000_000));
    assert_eq!(f.next(), Some(5_000_000_000));
    let mut f = Fixed::from_millis(250);
    assert_eq!(f.next(), Some(250_000_000));
    let mut f = Fixed::from(1234);
    assert_eq!(f.next(), Some(1234));
}

#[test]
fn result_conversion() {
    let ok: Result<u8, &str> = Ok(3);
    let err: Result<u8, &str> = Err("nope");
    assert_eq!(OperationResult::from(ok), OperationResult::Success(3));
    assert_eq!(OperationResult::from(err), OperationResult::Retry("nope"));
}

#[test]
fn succeeds_after_retries() {
    let mut fixed = Fixed::from_secs(5);
    let (r, waited) = run(
        || fixed.next(),
        vec![
            OperationResult::Retry("a"),
            OperationResult::Retry("b"),
            OperationResult::Success(7),
        ],
    );
    assert_eq!(r, Ok(7));
    assert_eq!(waited, vec![5_000_000_000, 5_000_000_000]);
}

#[test]
fn gives_up_when_the_schedule_runs_out() {
    let mut left = 2;
    let (r, waited) = run(
        || {
            if left > 0 {
                left -= 1;
                Some(100)
            } else {
                None
            }
        },
        vec![OperationResult::Retry("a"); 10],
    );
    assert_eq!(
        r,
        Err(RetryError {
            error: "a",
            total_delay: 200,
            tries: 3
        })
    );
    assert_eq!(waited.len(), 2);
}

#[test]
fn stops_on_a_final_error() {
    let mut fixed = Fixed::from_millis(10);
    let (r, _) = run(
        || fixed.next(),
        vec![
            OperationResult::Retry("a"),
            OperationResult::Failure("fatal"),
            OperationResult::Success(1),
        ],
    );
    assert_eq!(
        r,
        Err(RetryError {
            error: "fatal",
            total_delay: 10_000_000,
            tries: 2
        })
    );
}

#[test]
fn first_try_success_waits_nothing() {
    let (r, waited) = run(|| Some(1), vec![OperationResult::Success(9)]);
    assert_eq!(r, Ok(9));
    assert!(waited.is_empty());
}
