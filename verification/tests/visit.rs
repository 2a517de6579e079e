use checkout::config::Config;
use checkout::credentials::{choose_credentials, Credentials};
use checkout::failure::Failure;
use checkout::plan::{Operation, Planned};
use checkout::visit::{
    checkout_label, file_config, recursive_config, ConfigSource, Event, Next, Stage, Visit,
};
use checkout::CheckoutResult;

fn strings(list: &[&str]) -> Vec<String> {
    list.iter().map(|s| s.to_string()).collect()
}

fn visit(recursive: bool) -> Visit {
    let planned = Planned {
        path: 3,
        operation: Operation::Checkout,
        recursive,
        categories: strings(&["a"]),
        name: None,
    };
    Visit::new(planned, "/root/sub".to_string(), "sub".to_string())
}

#[test]
fn failed_checkouts_end_the_visit() {
    let mut visit = visit(true);
    let reaction = visit.react(Event::CheckedOut(Err(Failure::new("why".to_string()))));
    assert!(matches!(reaction.next, Next::Finish));
    assert_eq!(reaction.reports.len(), 1);
    let failure = reaction.reports[0].as_ref().unwrap_err();
    assert_eq!(failure.message, "Error while checkouting sub");
    assert_eq!(failure.causes, strings(&["why"]));
    assert_eq!(visit.stage, Stage::Finished);
}

#[test]
fn visits_without_configuration() {
    let mut visit = visit(false);
    let reaction = visit.react(Event::CheckedOut(Ok(CheckoutResult::Changed)));
    assert!(matches!(reaction.next, Next::ReadConfig(ConfigSource::File)));
    assert!(reaction.reports.is_empty());
    let reaction = visit.react(Event::ConfigRead(Ok(None)));
    assert!(matches!(reaction.next, Next::Finish));
    assert!(matches!(reaction.reports[..], [Ok(CheckoutResult::Changed)]));
}

#[test]
fn visits_with_configuration() {
    let mut visit = visit(true);
    let reaction = visit.react(Event::CheckedOut(Ok(CheckoutResult::Unchanged)));
    match reaction.next {
        Next::ReadConfig(ConfigSource::Repository(categories)) => {
            assert_eq!(categories, strings(&["a"]))
        }
        _ => panic!("a recursive submodule has its submodules listed"),
    }
    let reaction = visit.react(Event::ConfigRead(Ok(Some(Config::new()))));
    assert!(matches!(reaction.next, Next::Descend(_)));
    assert!(reaction.reports.is_empty());
    let reaction = visit.react(Event::Descended(Ok(())));
    assert!(matches!(reaction.next, Next::Finish));
    assert!(matches!(reaction.reports[..], [Ok(CheckoutResult::Unchanged)]));
}

#[test]
fn own_checkout_is_reported_last() {
    let mut broken = visit(false);
    broken.react(Event::CheckedOut(Ok(CheckoutResult::Changed)));
    let reaction = broken.react(Event::ConfigRead(Err(Failure::new("bad".to_string()))));
    assert!(matches!(reaction.next, Next::Finish));
    assert_eq!(reaction.reports.len(), 2);
    assert_eq!(reaction.reports[0].as_ref().unwrap_err().message, "bad");
    assert!(matches!(reaction.reports[1], Ok(CheckoutResult::Changed)));

    let mut broken = visit(false);
    broken.react(Event::CheckedOut(Ok(CheckoutResult::Changed)));
    broken.react(Event::ConfigRead(Ok(Some(Config::new()))));
    let reaction = broken.react(Event::Descended(Err(Failure::new("bad".to_string()))));
    let failure = reaction.reports[0].as_ref().unwrap_err();
    assert_eq!(failure.message, "Error while checkouting /root/sub");
    assert_eq!(failure.causes, strings(&["bad"]));
    assert!(matches!(reaction.reports[1], Ok(CheckoutResult::Changed)));
}

#[test]
fn events_out_of_turn_are_disregarded() {
    let mut visit = visit(false);
    let reaction = visit.react(Event::Descended(Ok(())));
    assert!(matches!(reaction.next, Next::Unexpected));
    assert!(reaction.reports.is_empty());
    assert_eq!(visit.stage, Stage::CheckingOut);
}

#[test]
fn labels() {
    assert_eq!(checkout_label(Some("a/b".to_string()), "/r".to_string()), "a/b");
    assert_eq!(checkout_label(None, "/r".to_string()), "/r");
}

#[test]
fn configurations_of_submodules() {
    let categories = strings(&["a"]);
    let found = recursive_config(Ok(Ok(vec![(1, None)])), &categories).unwrap().unwrap();
    assert_eq!(found.paths(), vec![1]);
    assert_eq!(found.get(1).unwrap().categories, categories);
    assert_eq!(found.get(1).unwrap().recursive, Some(true));
    let unlisted =
        recursive_config(Ok(Err(Failure::new("x".to_string()))), &categories).unwrap_err();
    assert_eq!(unlisted.message, "Could not load config");
    assert_eq!(unlisted.causes, strings(&["Could not load submodules", "x"]));
    let unopened = recursive_config(Err(Failure::new("x".to_string())), &categories).unwrap_err();
    assert_eq!(unopened.message, "Could not open submodule");
    assert_eq!(unopened.causes, strings(&["x"]));
    assert!(matches!(file_config(Ok(None)), Ok(None)));
    let broken = file_config(Err(Failure::new("x".to_string()))).unwrap_err();
    assert_eq!(broken.message, "Error reading configuration");
    assert_eq!(broken.causes, strings(&["x"]));
}

#[test]
fn credentials_come_from_the_agent() {
    match choose_credentials("ssh://git@host/x", Some("git".to_string())) {
        Credentials::SshAgent(user) => assert_eq!(user, "git"),
        Credentials::Unsupported(_) => panic!("a named user is authenticated"),
    }
    match choose_credentials("https://host/x", None) {
        Credentials::Unsupported(reason) => {
            assert_eq!(reason, "Unsupported authentication mode for https://host/x")
        }
        Credentials::SshAgent(_) => panic!("nobody is named"),
    }
}

/// Visits a submodule, below it `width` others and so on `depth` levels down, and gives the
/// reports. The innermost submodules have a configuration that cannot be read where `broken`.
fn reports(depth: usize, width: usize, broken: bool) -> Vec<Result<CheckoutResult, Failure>> {
    let mut visit = visit(false);
    let mut all = Vec::new();
    let mut event = Event::CheckedOut(Ok(CheckoutResult::Changed));
    loop {
        let reaction = visit.react(event);
        all.extend(reaction.reports);
        event = match reaction.next {
            Next::ReadConfig(_) if depth > 0 => Event::ConfigRead(Ok(Some(Config::new()))),
            Next::ReadConfig(_) if broken => {
                Event::ConfigRead(Err(Failure::new("bad".to_string())))
            }
            Next::ReadConfig(_) => Event::ConfigRead(Ok(None)),
            Next::Descend(_) => {
                for _ in 0..width {
                    all.extend(reports(depth - 1, width, broken));
                }
                Event::Descended(Ok(()))
            }
            Next::Finish => return all,
            Next::Unexpected => panic!("events come in turn"),
        };
    }
}

#[test]
fn reports_add_up() {
    let sound = reports(2, 3, false);
    assert_eq!(sound.len(), 1 + 3 + 9);
    assert!(sound.iter().all(|report| report.is_ok()));
    let broken = reports(2, 3, true);
    assert_eq!(broken.len(), 1 + 3 + 9 + 9);
    assert_eq!(broken.iter().filter(|report| report.is_err()).count(), 9);
    assert!(matches!(broken.last(), Some(Ok(CheckoutResult::Changed))));
}
