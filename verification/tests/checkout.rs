use checkout::checkout::Checkout;
use checkout::failure::{ErrorClass, ErrorCode, Failure, Fault};
use checkout::flags;
use checkout::model::{Action, Answer, Phase, Progress, Reply, Request};
use checkout::plan::Operation;
use checkout::status::{FilePath, RepositoryState, StatusEntry};
use checkout::CheckoutResult;

fn request(operation: Operation, force_checkout: bool) -> Request {
    Request {
        repository: "/repo".to_string(),
        path: "sub".to_string(),
        utf8_path: Some("sub".to_string()),
        submodule_name: None,
        operation,
        force_checkout,
    }
}

/// How an update of the submodule is asked for.
const UPDATE: &str = "UpdateSubmodule { init: true, allow_fetch: false }";

fn done() -> Reply {
    Ok(Answer::Done)
}

fn yes() -> Reply {
    Ok(Answer::Verdict(true))
}

fn no() -> Reply {
    Ok(Answer::Verdict(false))
}

fn clean() -> Reply {
    Ok(Answer::State(RepositoryState::Clean))
}

fn error(class: ErrorClass, code: ErrorCode) -> Reply {
    Err(Fault { class, code, message: "broken".to_string() })
}

fn broken() -> Reply {
    error(ErrorClass::Other, ErrorCode::Other)
}

fn missing() -> Reply {
    error(ErrorClass::Odb, ErrorCode::NotFound)
}

fn known(workdir_id: Option<&str>) -> Reply {
    Ok(Answer::Submodule {
        branch: Some("main".to_string()),
        head_id: Some("aa".to_string()),
        workdir_id: workdir_id.map(|id| id.to_string()),
    })
}

fn status(path: &[u8], status: u32) -> StatusEntry {
    StatusEntry {
        path: FilePath {
            bytes: path.to_vec(),
            shown: String::from_utf8_lossy(path).into_owned(),
        },
        status,
        submodule_status: None,
    }
}

fn statuses(list: &[(&str, u32)]) -> Reply {
    Ok(Answer::Statuses(
        list.iter().map(|(path, flags)| status(path.as_bytes(), *flags)).collect(),
    ))
}

/// What a checkout asks for, with paths as text.
fn action_text(checkout: &Checkout) -> String {
    match checkout.action() {
        Action::SearchCommitTree(path) => {
            format!("SearchCommitTree({:?})", String::from_utf8_lossy(&path))
        }
        Action::ReadStatuses { .. } => "ReadStatuses".to_string(),
        action => format!("{:?}", action),
    }
}

/// The replies that bring a checkout to the point where the submodule is to be opened.
fn opening(workdir_id: Option<&str>) -> Vec<Reply> {
    vec![done(), done(), done(), done(), known(workdir_id)]
}

/// Gives replies to a checkout, and returns what it asked for and how it ended, if it did.
fn play(request: Request, replies: Vec<Reply>) -> (Vec<String>, Option<Progress<Failure>>) {
    let mut checkout = Checkout::new(request);
    let mut asked = Vec::new();
    for reply in replies {
        asked.push(action_text(&checkout));
        match checkout.step(reply) {
            Progress::Next | Progress::Retry(_) => {}
            end => {
                assert!(matches!(checkout.action(), Action::Nothing));
                return (asked, Some(end));
            }
        }
    }
    asked.push(action_text(&checkout));
    (asked, None)
}

/// The messages with which a checkout fails.
fn failure(request: Request, replies: Vec<Reply>) -> Vec<String> {
    match play(request, replies).1 {
        Some(Progress::Finished(Err(failure))) => {
            let mut messages = vec![failure.message];
            messages.extend(failure.causes);
            messages
        }
        other => panic!("{:?}", other),
    }
}

fn then(mut replies: Vec<Reply>, more: Vec<Reply>) -> Vec<Reply> {
    replies.extend(more);
    replies
}

#[test]
fn plain_checkouts() {
    let replies = then(
        opening(Some("bb")),
        vec![
            done(),
            clean(),
            statuses(&[("new", flags::WT_NEW)]),
            done(),
            done(),
            no(),
            done(),
            done(),
            done(),
            done(),
            done(),
            done(),
            done(),
        ],
    );
    let (asked, end) = play(request(Operation::Checkout, false), replies);
    assert!(matches!(end, Some(Progress::Finished(Ok(CheckoutResult::Changed)))));
    assert_eq!(
        asked,
        vec![
            "OpenRepository",
            "FindSubmodule(\"sub\")",
            "InitSubmodule { overwrite: false }",
            "SyncSubmodule",
            "ReadSubmodule",
            "OpenSubmodule",
            "ReadState",
            "ReadStatuses",
            "FindCommit(\"aa\")",
            "ReadCommitTree",
            "SearchCommitTree(\"new\")",
            "DetachHead(\"aa\")",
            "OpenIndex",
            "ReadHead",
            "PeelHead",
            "FillIndex",
            "WriteIndex",
            "CheckoutHead { force: true }",
        ]
    );
}

#[test]
fn submodules_at_the_target_are_unchanged() {
    let replies = then(opening(Some("aa")), vec![done(), clean(), statuses(&[]), done()]);
    let (asked, end) = play(request(Operation::Checkout, false), replies);
    assert!(matches!(end, Some(Progress::Finished(Ok(CheckoutResult::Unchanged)))));
    assert_eq!(asked.last().unwrap(), "CheckoutHead { force: true }");
    assert!(asked.iter().all(|action| !action.starts_with("DetachHead")));
}

#[test]
fn bumps_go_to_the_tip_of_the_branch() {
    let replies = then(
        opening(Some("bb")),
        vec![
            done(),
            clean(),
            statuses(&[]),
            done(),
            done(),
            done(),
            Ok(Answer::Commit("cc".to_string())),
            done(),
            done(),
        ],
    );
    let (asked, end) = play(request(Operation::Bump, false), replies);
    assert!(end.is_none());
    assert_eq!(
        asked[8..],
        [
            "FindRemote(\"origin\")",
            "Fetch(Some(\"main\"))",
            "FindReference(\"refs/remotes/origin/main\")",
            "PeelReference",
            "FindCommit(\"cc\")",
            "ReadCommitTree",
            "DetachHead(\"cc\")",
        ]
    );
}

#[test]
fn bumps_without_a_branch_go_to_head() {
    let replies = vec![
        done(),
        done(),
        done(),
        done(),
        Ok(Answer::Submodule { branch: None, head_id: Some("aa".to_string()), workdir_id: None }),
        done(),
        done(),
        done(),
    ];
    let (asked, _) = play(request(Operation::Bump, true), replies);
    assert_eq!(
        asked[7..],
        ["Fetch(Some(\"HEAD\"))", "FindReference(\"refs/remotes/origin/HEAD\")"]
    );
}

#[test]
fn force_skips_inspection() {
    let replies = then(opening(None), vec![done(), done()]);
    let (asked, _) = play(request(Operation::Checkout, true), replies);
    assert_eq!(asked[5..], ["OpenSubmodule", "FindCommit(\"aa\")", "DetachHead(\"aa\")"]);
}

#[test]
fn force_goes_on_until_something_fails() {
    let mut checkout = Checkout::new(request(Operation::Bump, true));
    let result = loop {
        let reply = match checkout.phase() {
            Phase::ReadSubmodule => known(Some("bb")),
            Phase::PeelReference => Ok(Answer::Commit("cc".to_string())),
            _ => done(),
        };
        match checkout.step(reply) {
            Progress::Next => {}
            Progress::Finished(result) => break result,
            other => panic!("{:?}", other),
        }
    };
    assert!(matches!(result, Ok(CheckoutResult::Changed)));
}

#[test]
fn submodules_are_found_by_name() {
    let mut named = request(Operation::Checkout, false);
    named.submodule_name = Some("name".to_string());
    let (asked, _) = play(named, vec![done()]);
    assert_eq!(asked[1], "FindSubmodule(\"name\")");
}

#[test]
fn paths_that_are_not_unicode_need_a_name() {
    let mut unnamed = request(Operation::Checkout, false);
    unnamed.utf8_path = None;
    assert_eq!(failure(unnamed, vec![done()]), vec!["Unsupported Non-UTF8 path 'sub'"]);
}

#[test]
fn missing_submodules_are_cloned() {
    let replies = then(
        opening(None),
        vec![
            broken(),
            done(),
            Ok(Answer::Text("gitdir: x".to_string())),
            done(),
            done(),
            done(),
            done(),
        ],
    );
    let (asked, end) = play(request(Operation::Checkout, false), replies);
    assert!(end.is_none());
    assert_eq!(
        asked[5..],
        [
            "OpenSubmodule",
            "InitRepository { use_gitlink: true }",
            "ReadGitFile",
            "CloneSubmodule { allow_fetch: false }",
            UPDATE,
            "SyncSubmodule",
            "OpenSubmodule",
            "ReadState",
        ]
    );
}

#[test]
fn broken_clones_get_their_git_file_back() {
    let start = || {
        then(
            opening(None),
            vec![
                broken(),
                done(),
                Ok(Answer::Text("gitdir: x".to_string())),
                error(ErrorClass::Os, ErrorCode::Other),
            ],
        )
    };
    let (asked, _) = play(request(Operation::Checkout, false), then(start(), vec![no(), done()]));
    assert_eq!(asked[9..], ["LookForGitFile", "WriteGitFile(\"gitdir: x\")", UPDATE]);
    let (asked, _) = play(request(Operation::Checkout, false), then(start(), vec![yes()]));
    assert_eq!(asked[9..], ["LookForGitFile", UPDATE]);
    assert_eq!(
        failure(request(Operation::Checkout, false), then(start(), vec![no(), broken()])),
        vec!["Unable to write .git file", "broken"]
    );
}

#[test]
fn updates_may_miss_a_commit() {
    let start = || {
        then(
            opening(None),
            vec![broken(), done(), Ok(Answer::Text("x".to_string())), done()],
        )
    };
    let (asked, _) = play(request(Operation::Checkout, false), then(start(), vec![missing()]));
    assert_eq!(asked[9..], [UPDATE, "SyncSubmodule"]);
    assert_eq!(
        failure(request(Operation::Checkout, false), then(start(), vec![broken()])),
        vec!["Could not update submodule", "broken"]
    );
}

#[test]
fn failed_resync_panics() {
    let replies = then(
        opening(None),
        vec![
            broken(),
            done(),
            Ok(Answer::Text("x".to_string())),
            done(),
            done(),
            broken(),
        ],
    );
    match play(request(Operation::Checkout, false), replies).1 {
        Some(Progress::Panic(failure)) => {
            assert_eq!(failure.message, "Could not sync submodule");
            assert_eq!(failure.causes, vec!["broken"]);
        }
        other => panic!("{:?}", other),
    }
}

#[test]
fn absent_commits_are_fetched() {
    let start = || then(opening(None), vec![done(), broken(), done()]);
    let (asked, _) = play(request(Operation::Checkout, true), then(start(), vec![done(), done()]));
    assert_eq!(
        asked[6..],
        [
            "FindCommit(\"aa\")",
            "FindRemote(\"origin\")",
            "Fetch(Some(\"+aa:aa\"))",
            "FindCommit(\"aa\")",
            "DetachHead(\"aa\")",
        ]
    );
    let (asked, _) =
        play(request(Operation::Checkout, true), then(start(), vec![missing(), done()]));
    assert_eq!(asked[8..], ["Fetch(Some(\"+aa:aa\"))", "Fetch(None)", "FindCommit(\"aa\")"]);
    assert_eq!(
        failure(request(Operation::Checkout, true), then(start(), vec![broken()])),
        vec!["Could not fetch submodule", "broken"]
    );
    assert_eq!(
        failure(request(Operation::Checkout, true), then(start(), vec![missing(), missing()])),
        vec!["Could not fetch submodule", "broken"]
    );
    assert_eq!(
        failure(request(Operation::Checkout, true), then(start(), vec![done(), broken()])),
        vec!["Could not find commit in submodule", "broken"]
    );
}

#[test]
fn untidy_worktrees_are_left_alone() {
    let replies = then(
        opening(Some("bb")),
        vec![
            done(),
            clean(),
            statuses(&[
                ("a", flags::CONFLICTED),
                ("b", flags::INDEX_NEW),
                ("c", flags::WT_MODIFIED),
                ("d", flags::WT_DELETED),
            ]),
        ],
    );
    assert_eq!(
        failure(request(Operation::Checkout, false), replies),
        vec!["Repository 'sub' is not clean: 1 conflicts, 1 indexed, 2 modified"]
    );
}

#[test]
fn unfinished_rebases_are_left_alone() {
    for state in [
        RepositoryState::Merge,
        RepositoryState::Revert,
        RepositoryState::Bisect,
        RepositoryState::RebaseInteractive,
        RepositoryState::ApplyMailboxOrRebase,
    ] {
        assert_eq!(
            failure(
                request(Operation::Checkout, false),
                then(opening(None), vec![done(), Ok(Answer::State(state))])
            ),
            vec!["The submodule is not in a clean state (is a rebase in progress?"]
        );
    }
}

#[test]
fn untracked_files_are_not_overwritten() {
    let replies = then(
        opening(Some("bb")),
        vec![
            done(),
            clean(),
            statuses(&[("one", flags::WT_NEW), ("two", flags::WT_NEW)]),
            done(),
            done(),
            no(),
            yes(),
        ],
    );
    let (asked, _) = play(request(Operation::Checkout, false), replies);
    assert_eq!(asked[10..], ["SearchCommitTree(\"one\")", "SearchCommitTree(\"two\")"]);
    let replies = then(
        opening(Some("bb")),
        vec![
            done(),
            clean(),
            statuses(&[("one", flags::WT_NEW), ("two", flags::WT_NEW)]),
            done(),
            done(),
            no(),
            yes(),
        ],
    );
    assert_eq!(
        failure(request(Operation::Checkout, false), replies),
        vec!["'two' would be overwritten by checkout"]
    );
}

#[test]
fn untracked_files_in_directories_are_not_overwritten() {
    let replies = || {
        then(
            opening(Some("bb")),
            vec![done(), clean(), statuses(&[("dir/n.txt", flags::WT_NEW)]), done(), done(), yes()],
        )
    };
    let (asked, _) = play(request(Operation::Checkout, false), replies());
    assert_eq!(asked.last().unwrap(), "SearchCommitTree(\"dir/n.txt\")");
    assert!(asked.iter().all(|action| !action.starts_with("DetachHead")));
    assert_eq!(
        failure(request(Operation::Checkout, false), replies()),
        vec!["'dir/n.txt' would be overwritten by checkout"]
    );
}

#[test]
fn untracked_files_are_looked_for_by_their_bytes() {
    let mut checkout = Checkout::new(request(Operation::Checkout, false));
    let list = vec![status(b"dir/\xff", flags::WT_NEW)];
    let replies = vec![done(), clean(), Ok(Answer::Statuses(list)), done(), done()];
    for reply in then(opening(Some("bb")), replies) {
        assert!(matches!(checkout.step(reply), Progress::Next));
    }
    assert!(matches!(checkout.action(), Action::SearchCommitTree(path) if path == b"dir/\xff"));
    match checkout.step(yes()) {
        Progress::Finished(Err(failure)) => {
            assert_eq!(failure.message, "'dir/\u{fffd}' would be overwritten by checkout")
        }
        other => panic!("{:?}", other),
    }
}

#[test]
fn changes_survive_whatever_the_name_of_the_file() {
    for (flags, counts) in [
        (flags::WT_MODIFIED, "0 conflicts, 0 indexed, 1 modified"),
        (flags::INDEX_MODIFIED, "0 conflicts, 1 indexed, 0 modified"),
    ] {
        let list = vec![status(b"caf\xe9.txt", flags)];
        let replies =
            then(opening(Some("bb")), vec![done(), clean(), Ok(Answer::Statuses(list))]);
        assert_eq!(
            failure(request(Operation::Checkout, false), replies),
            vec![format!("Repository 'sub' is not clean: {}", counts)]
        );
    }
}

#[test]
fn untracked_files_are_asked_for() {
    let mut checkout = Checkout::new(request(Operation::Checkout, false));
    for reply in then(opening(Some("bb")), vec![done(), clean()]) {
        checkout.step(reply);
    }
    assert!(matches!(
        checkout.action(),
        Action::ReadStatuses {
            include_untracked: true,
            recurse_untracked_dirs: true,
            ignore_untracked_below: true,
        }
    ));
}

#[test]
fn second_checkouts_change_nothing() {
    for force_checkout in [false, true] {
        let inspection = || if force_checkout { vec![] } else { vec![clean(), statuses(&[])] };
        let first = then(then(opening(Some("bb")), vec![done()]), inspection());
        let mut checkout = Checkout::new(request(Operation::Checkout, force_checkout));
        for reply in first {
            checkout.step(reply);
        }
        let result = loop {
            match checkout.step(done()) {
                Progress::Next => {}
                Progress::Finished(result) => break result,
                other => panic!("{:?}", other),
            }
        };
        assert!(matches!(result, Ok(CheckoutResult::Changed)));

        let current = checkout.target_id();
        let second = then(then(opening(Some(&current)), vec![done()]), inspection());
        let (asked, end) = play(
            request(Operation::Checkout, force_checkout),
            then(second, vec![done()]),
        );
        assert!(matches!(end, Some(Progress::Finished(Ok(CheckoutResult::Unchanged)))));
        assert_eq!(asked.len(), if force_checkout { 7 } else { 9 });
        assert!(asked.iter().all(|action| !action.starts_with("DetachHead")));
    }
}

#[test]
fn locks_and_networks_are_retried() {
    let locked = || error(ErrorClass::Other, ErrorCode::Locked);
    let mut checkout = Checkout::new(request(Operation::Checkout, false));
    checkout.step(done());
    checkout.step(done());
    for _ in 0..3 {
        assert!(matches!(checkout.action(), Action::InitSubmodule { overwrite: false }));
        assert!(matches!(checkout.step(locked()), Progress::Retry(Some(1000))));
    }
    match checkout.step(locked()) {
        Progress::Finished(Err(failure)) => assert_eq!(failure.message, "Could not init submodule"),
        other => panic!("{:?}", other),
    }

    let net = || error(ErrorClass::Net, ErrorCode::Other);
    let mut checkout = Checkout::new(request(Operation::Bump, true));
    for reply in then(opening(None), vec![done(), done()]) {
        checkout.step(reply);
    }
    for _ in 0..10 {
        assert_eq!(checkout.phase(), Phase::FetchBranch);
        assert!(matches!(checkout.step(net()), Progress::Retry(Some(1000))));
    }
    match checkout.step(net()) {
        Progress::Finished(Err(failure)) => {
            assert_eq!(failure.message, "Could not fetch remote branch")
        }
        other => panic!("{:?}", other),
    }
}

#[test]
fn replies_out_of_turn_are_disregarded() {
    let mut checkout = Checkout::new(request(Operation::Checkout, false));
    assert!(matches!(checkout.step(yes()), Progress::Unexpected));
    assert_eq!(checkout.phase(), Phase::OpenRepository);
    checkout.step(broken());
    assert_eq!(checkout.phase(), Phase::Finished);
    assert!(matches!(checkout.step(done()), Progress::Unexpected));
}

#[test]
fn ids_of_a_checkout() {
    let mut checkout = Checkout::new(request(Operation::Checkout, true));
    for reply in then(opening(Some("bb")), vec![done()]) {
        checkout.step(reply);
    }
    assert_eq!(checkout.workdir_id(), Some("bb".to_string()));
    assert_eq!(checkout.target_id(), "aa");
}

#[test]
fn each_failure_says_what_could_not_be_done() {
    let plain = || request(Operation::Checkout, false);
    assert_eq!(
        failure(plain(), vec![broken()]),
        vec!["Could not open repository at path '/repo'", "broken"]
    );
    assert_eq!(
        failure(plain(), vec![done(), broken()]),
        vec!["Could not find submodule", "broken"]
    );
    assert_eq!(
        failure(plain(), vec![done(), done(), done(), broken()]),
        vec!["Could not sync submodule", "broken"]
    );
    let headless = Ok(Answer::Submodule { branch: None, head_id: None, workdir_id: None });
    assert_eq!(
        failure(plain(), vec![done(), done(), done(), done(), headless]),
        vec!["no head id for submodule"]
    );
    for (replies, message) in [
        (vec![broken(), broken()], "Could not initialize submodule"),
        (vec![broken(), done(), broken()], "Not able to read .git file"),
        (
            vec![broken(), done(), Ok(Answer::Text("x".to_string())), broken()],
            "Could not clone submodule",
        ),
        (
            vec![
                broken(),
                done(),
                Ok(Answer::Text("x".to_string())),
                done(),
                done(),
                done(),
                broken(),
            ],
            "Could not open submodule",
        ),
        (vec![done(), clean(), broken()], "Could not access submodule status"),
        (vec![done(), clean(), statuses(&[]), done(), broken()], "Could not get commit's tree"),
        (
            vec![done(), clean(), statuses(&[("a/b", flags::WT_NEW)]), done(), done(), broken()],
            "Could not get commit's tree",
        ),
    ] {
        assert_eq!(failure(plain(), then(opening(None), replies)), vec![message, "broken"]);
    }
    for (replies, message) in [
        (vec![broken()], "Could not find submodule remote"),
        (vec![done(), broken()], "Could not fetch remote branch"),
        (
            vec![done(), done(), broken()],
            "Could not find reference refs/remotes/origin/main in submodule sub",
        ),
        (
            vec![done(), done(), done(), broken()],
            "Could not get commit from reference refs/remotes/origin/main in submodule sub",
        ),
    ] {
        assert_eq!(
            failure(
                request(Operation::Bump, true),
                then(then(opening(None), vec![done()]), replies)
            ),
            vec![message, "broken"]
        );
    }
    let forced = || request(Operation::Checkout, true);
    for (replies, messages) in [
        (vec![done(), broken()], vec!["Could not set head in submodule", "broken"]),
        (vec![done(), done(), broken()], vec!["Could not get submodule's index file", "broken"]),
        (vec![done(), done(), done(), broken()], vec!["broken"]),
        (vec![done(), done(), done(), done(), broken()], vec!["broken"]),
        (vec![done(), done(), done(), done(), done(), broken()], vec!["broken"]),
        (vec![done(), done(), done(), done(), done(), done(), broken()], vec!["broken"]),
        (
            vec![done(), done(), done(), done(), done(), done(), done(), broken()],
            vec!["Could not checkout head", "broken"],
        ),
        (vec![broken(), broken()], vec!["Could not find submodule remote", "broken"]),
    ] {
        assert_eq!(
            failure(forced(), then(then(opening(None), vec![done()]), replies)),
            messages
        );
    }
    assert_eq!(
        failure(forced(), then(opening(Some("aa")), vec![done(), broken()])),
        vec!["Could not checkout head", "broken"]
    );
}

#[test]
fn checkouts_stay_offline() {
    let replies = then(
        opening(Some("bb")),
        vec![done(), clean(), statuses(&[]), done(), done(), done(), done()],
    );
    let (asked, _) = play(request(Operation::Checkout, false), replies);
    for action in asked {
        assert!(!action.starts_with("Clone"));
        assert!(!action.starts_with("Update"));
        assert!(!action.starts_with("Fetch"));
    }
}

#[test]
fn checkouts_end() {
    let net = || error(ErrorClass::Net, ErrorCode::Other);
    let locked = || error(ErrorClass::Other, ErrorCode::Locked);
    let files = [("a", flags::WT_NEW), ("b", flags::WT_NEW), ("c", flags::WT_NEW)];
    let mut checkout = Checkout::new(request(Operation::Bump, false));
    let mut operations = 0;
    let mut tries = 0;
    loop {
        let reply = match checkout.phase() {
            Phase::InitSubmodule | Phase::SyncSubmodule | Phase::ResyncSubmodule if tries < 3 => {
                locked()
            }
            Phase::UpdateSubmodule
            | Phase::FetchBranch
            | Phase::FetchCommit
            | Phase::FetchEverything
                if tries < 10 =>
            {
                net()
            }
            Phase::ReadSubmodule => known(None),
            Phase::OpenSubmodule | Phase::FindCommit => broken(),
            Phase::ReadGitFile => Ok(Answer::Text("x".to_string())),
            Phase::CloneSubmodule => error(ErrorClass::Os, ErrorCode::Other),
            Phase::LookForGitFile | Phase::SearchCommitTree => no(),
            Phase::ReadState => clean(),
            Phase::ReadStatuses => statuses(&files),
            Phase::PeelReference => Ok(Answer::Commit("cc".to_string())),
            Phase::FetchCommit => missing(),
            _ => done(),
        };
        operations += 1;
        tries += 1;
        match checkout.step(reply) {
            Progress::Next => tries = 0,
            Progress::Retry(_) => {}
            Progress::Finished(result) => {
                assert!(matches!(result, Ok(CheckoutResult::Changed)));
                break;
            }
            other => panic!("{:?}", other),
        }
    }
    assert_eq!(operations, 82 + files.len());
}
