use checkout::failure::Failure;
use checkout::report::report_errors;
use checkout::CheckoutResult;

#[test]
fn successful_runs() {
    let report = report_errors(&vec![
        Ok(CheckoutResult::Changed),
        Ok(CheckoutResult::Unchanged),
        Ok(CheckoutResult::Changed),
    ]);
    assert_eq!(
        report.text,
        "\n\x1b[92mSUCCESS\x1b[39m: \x1b[32m2\x1b[39m checkouts, \x1b[2m1\x1b[0m unchanged\n"
    );
    assert!(report.result.is_ok());
}

#[test]
fn empty_runs() {
    let report = report_errors(&Vec::new());
    assert_eq!(
        report.text,
        "\n\x1b[92mSUCCESS\x1b[39m: \x1b[32m0\x1b[39m checkouts, \x1b[2m0\x1b[0m unchanged\n"
    );
    assert!(report.result.is_ok());
}

#[test]
fn failed_runs() {
    let deep = Failure::new("root cause".to_string())
        .context("cause".to_string())
        .context("failure".to_string());
    let report = report_errors(&vec![
        Err(deep),
        Ok(CheckoutResult::Changed),
        Err(Failure::new("alone".to_string())),
    ]);
    assert_eq!(
        report.text,
        "\n\x1b[91mFAIL\x1b[39m: \x1b[32m1\x1b[39m checkouts, \x1b[2m0\x1b[0m unchanged, \
         \x1b[31m2\x1b[39m error(s)\n\
         \nCommand failed due to the following error(s):\n\n\
         Error: failure\n  Caused by: cause\n  Caused by: root cause\nError: alone\n"
    );
    let failure = report.result.unwrap_err();
    assert_eq!(failure.message, "Command terminated with errors");
    assert!(failure.causes.is_empty());
}

#[test]
fn every_outcome_is_counted() {
    let mut outcomes: Vec<Result<CheckoutResult, Failure>> = Vec::new();
    for i in 0..30 {
        outcomes.push(if i % 5 == 0 {
            Err(Failure::new("x".to_string()))
        } else if i % 2 == 0 {
            Ok(CheckoutResult::Changed)
        } else {
            Ok(CheckoutResult::Unchanged)
        });
    }
    let report = report_errors(&outcomes);
    assert!(report.text.contains("\x1b[32m12\x1b[39m checkouts, \x1b[2m12\x1b[0m unchanged"));
    assert!(report.text.contains("\x1b[31m6\x1b[39m error(s)"));
}

#[test]
fn order_of_outcomes_does_not_count() {
    let failure = |message: &str| Err(Failure::new(message.to_string()));
    let report = report_errors(&vec![
        failure("one"),
        Ok(CheckoutResult::Changed),
        Ok(CheckoutResult::Unchanged),
        failure("two"),
    ]);
    let other = report_errors(&vec![
        Ok(CheckoutResult::Unchanged),
        failure("two"),
        failure("one"),
        Ok(CheckoutResult::Changed),
    ]);
    let counts = "\x1b[32m1\x1b[39m checkouts, \x1b[2m1\x1b[0m unchanged, \x1b[31m2\x1b[39m error(s)";
    assert!(report.text.contains(counts));
    assert!(other.text.contains(counts));
    assert!(other.text.ends_with("Error: two\nError: one\n"));
    assert!(report.result.is_err() && other.result.is_err());
}
