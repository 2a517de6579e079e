use checkout::failure::{ErrorClass, ErrorCode, Fault};
use checkout::retry::{retry_if, retry_if_locked, retry_if_net, Attempt};

fn fault(class: ErrorClass, code: ErrorCode) -> Fault {
    Fault { class, code, message: "broken".to_string() }
}

/// Runs attempts that all fail with the same error, and counts them.
fn attempts(retry_counts: usize, continue_on: bool) -> usize {
    let mut failures = 0;
    loop {
        match retry_if::<(), &str>(failures, Some(retry_counts), None, Err("no"), continue_on) {
            Attempt::Return(result) => {
                assert_eq!(result, Err("no"));
                return failures + 1;
            }
            Attempt::TryAgain(wait) => assert_eq!(wait, None),
        }
        failures += 1;
    }
}

#[test]
fn attempts_are_bounded() {
    assert_eq!(attempts(0, true), 1);
    assert_eq!(attempts(3, true), 4);
    assert_eq!(attempts(10, true), 11);
    assert_eq!(attempts(10, false), 1);
}

#[test]
fn success_ends_the_attempts() {
    assert!(matches!(
        retry_if::<u8, u8>(2, Some(3), Some(7), Ok(5), true),
        Attempt::Return(Ok(5))
    ));
}

#[test]
fn without_a_limit_attempts_go_on() {
    assert!(matches!(
        retry_if::<u8, u8>(usize::MAX, None, Some(7), Err(1), true),
        Attempt::TryAgain(Some(7))
    ));
    assert!(matches!(
        retry_if::<u8, u8>(usize::MAX, None, Some(7), Err(1), false),
        Attempt::Return(Err(1))
    ));
}

#[test]
fn network_trouble_is_tried_again() {
    for (class, code, again) in [
        (ErrorClass::Net, ErrorCode::Other, true),
        (ErrorClass::Net, ErrorCode::Auth, true),
        (ErrorClass::Ssh, ErrorCode::Other, true),
        (ErrorClass::Ssh, ErrorCode::Auth, false),
        (ErrorClass::Os, ErrorCode::Other, false),
        (ErrorClass::Odb, ErrorCode::NotFound, false),
        (ErrorClass::Other, ErrorCode::Locked, false),
    ] {
        match retry_if_net::<()>(0, Err(fault(class, code))) {
            Attempt::TryAgain(wait) => {
                assert!(again);
                assert_eq!(wait, Some(1000));
            }
            Attempt::Return(result) => {
                assert!(!again);
                assert_eq!(result.unwrap_err().message, "broken");
            }
        }
    }
    assert!(matches!(
        retry_if_net::<()>(9, Err(fault(ErrorClass::Net, ErrorCode::Other))),
        Attempt::TryAgain(_)
    ));
    assert!(matches!(
        retry_if_net::<()>(10, Err(fault(ErrorClass::Net, ErrorCode::Other))),
        Attempt::Return(Err(_))
    ));
}

#[test]
fn held_locks_are_waited_for() {
    let locked = || fault(ErrorClass::Other, ErrorCode::Locked);
    assert!(matches!(retry_if_locked::<()>(2, Err(locked())), Attempt::TryAgain(Some(1000))));
    assert!(matches!(retry_if_locked::<()>(3, Err(locked())), Attempt::Return(Err(_))));
    assert!(matches!(
        retry_if_locked::<()>(0, Err(fault(ErrorClass::Net, ErrorCode::Other))),
        Attempt::Return(Err(_))
    ));
    assert!(matches!(retry_if_locked(0, Ok(1)), Attempt::Return(Ok(1))));
}

#[test]
fn more_retries_keep_a_success() {
    for retry_counts in [Some(2), Some(3), Some(usize::MAX), None] {
        let mut results = vec![Err("no"), Err("no"), Ok(7)].into_iter();
        let mut failures = 0;
        let result = loop {
            match retry_if(failures, retry_counts, None, results.next().unwrap(), true) {
                Attempt::Return(result) => break result,
                Attempt::TryAgain(_) => failures += 1,
            }
        };
        assert_eq!(result, Ok(7));
        assert_eq!(failures, 2);
    }
}
