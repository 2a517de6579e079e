//! The checkout of one submodule as a transition system: which operation on the repository comes
//! next, and what its result leads to.
use crate::failure::{ErrorClass, Failure, Fault, FaultView};
use crate::plan::Operation;
use crate::retry::{lock_trouble, net_trouble, LOCK_RETRIES, NET_RETRIES, RETRY_INTERVAL};
use crate::status::{
    changes, entries, tidy, untracked_paths, Change, FilePathView, RepositoryState, StatusEntry,
    StatusEntryView,
};
use crate::text::{decimal, text_of};
use crate::CheckoutResult;
use vstd::prelude::*;

verus! {

/// What is to be checked out, and how.
#[derive(Debug)]
pub struct Request {
    /// The path of the repository that has the submodule, for display.
    pub repository: String,
    /// The path of the submodule in that repository, for display.
    pub path: String,
    /// The path of the submodule in that repository, where it is valid UTF-8.
    pub utf8_path: Option<String>,
    /// The name of the submodule, where it has one.
    pub submodule_name: Option<String>,
    pub operation: Operation,
    /// Whether to go on even where files are modified.
    pub force_checkout: bool,
}

/// What a [`Request`] says, as a value.
pub struct RequestView {
    pub repository: Seq<char>,
    pub path: Seq<char>,
    pub utf8_path: Option<Seq<char>>,
    pub submodule_name: Option<Seq<char>>,
    pub operation: Operation,
    pub force_checkout: bool,
}

impl View for Request {
    type V = RequestView;

    open spec fn view(&self) -> RequestView {
        RequestView {
            repository: self.repository@,
            path: self.path@,
            utf8_path: text_of(self.utf8_path),
            submodule_name: text_of(self.submodule_name),
            operation: self.operation,
            force_checkout: self.force_checkout,
        }
    }
}

impl RequestView {
    /// The name by which git finds the submodule: its own, or else its path.
    pub open spec fn lookup_name(self) -> Option<Seq<char>> {
        if self.submodule_name is Some {
            self.submodule_name
        } else {
            self.utf8_path
        }
    }
}

/// How far a checkout has come: what it waits for.
#[derive(Clone, Copy, Debug, PartialEq, Eq, Structural)]
pub enum Phase {
    OpenRepository,
    FindSubmodule,
    InitSubmodule,
    SyncSubmodule,
    ReadSubmodule,
    OpenSubmodule,
    // The submodule could not be opened: make it.
    InitRepository,
    ReadGitFile,
    CloneSubmodule,
    LookForGitFile,
    RestoreGitFile,
    UpdateSubmodule,
    ResyncSubmodule,
    ReopenSubmodule,
    // The submodule is there: see what a checkout could destroy.
    ReadState,
    ReadStatuses,
    // The submodule is to be bumped: ask the remote for the target.
    FindBranchRemote,
    FetchBranch,
    FindReference,
    PeelReference,
    // The submodule is at the target.
    RefreshWorktree,
    // The submodule is to move to the target.
    FindCommit,
    FindCommitRemote,
    FetchCommit,
    FetchEverything,
    RefindCommit,
    ReadCommitTree,
    SearchCommitTree,
    DetachHead,
    OpenIndex,
    ReadHead,
    PeelHead,
    FillIndex,
    WriteIndex,
    CheckoutHead,
    Finished,
}

/// An operation on the repository, with its arguments as texts of type `S` and paths of type `P`.
#[derive(Debug)]
pub enum Action<S, P> {
    /// Open the repository that has the submodule.
    OpenRepository,
    /// Find the submodule of this name.
    FindSubmodule(S),
    /// Copy the settings of the submodule into the configuration, over those that are there only
    /// with `overwrite`.
    InitSubmodule { overwrite: bool },
    /// Copy the remote of the submodule into the configuration.
    SyncSubmodule,
    /// Read the branch of the submodule, the commit recorded for it and the commit it is at.
    ReadSubmodule,
    /// Open the repository of the submodule.
    OpenSubmodule,
    /// Set up a repository for the submodule, with a link to it in the worktree where
    /// `use_gitlink`.
    InitRepository { use_gitlink: bool },
    /// Read the `.git` file of the submodule.
    ReadGitFile,
    /// Clone the submodule, and fetch a commit that is missing afterwards only with `allow_fetch`.
    CloneSubmodule { allow_fetch: bool },
    /// Look whether the `.git` file of the submodule exists.
    LookForGitFile,
    /// Write the `.git` file of the submodule.
    WriteGitFile(S),
    /// Update the submodule. It is initialized first with `init`, and a commit that is missing is
    /// fetched only with `allow_fetch`.
    UpdateSubmodule { init: bool, allow_fetch: bool },
    /// Read what is under way in the repository of the submodule.
    ReadState,
    /// List the files of the submodule that are not as HEAD has them: with `include_untracked`
    /// also those that are untracked, with `recurse_untracked_dirs` each of those in untracked
    /// directories. The flags of submodules leave out their untracked files with
    /// `ignore_untracked_below`.
    ReadStatuses {
        include_untracked: bool,
        recurse_untracked_dirs: bool,
        ignore_untracked_below: bool,
    },
    /// Find the remote of the submodule with this name.
    FindRemote(S),
    /// Fetch this reference from the remote, or everything.
    Fetch(Option<S>),
    /// Find this reference.
    FindReference(S),
    /// Find the commit that the reference leads to.
    PeelReference,
    /// Find this commit.
    FindCommit(S),
    /// Read the tree of the commit.
    ReadCommitTree,
    /// Look whether the tree of the commit has an entry at this path, in whatever directory.
    SearchCommitTree(P),
    /// Set HEAD to this commit.
    DetachHead(S),
    /// Open the index of the submodule.
    OpenIndex,
    /// Read HEAD of the submodule.
    ReadHead,
    /// Read the tree that HEAD leads to.
    PeelHead,
    /// Read that tree into the index.
    FillIndex,
    /// Write the index.
    WriteIndex,
    /// Make the worktree of the submodule as HEAD has it, with `force` even where that overwrites
    /// files.
    CheckoutHead { force: bool },
    /// There is nothing left to do.
    Nothing,
}

/// An operation on the repository, as a value.
pub type ActionView = Action<Seq<char>, Seq<u8>>;

impl View for Action<String, Vec<u8>> {
    type V = ActionView;

    open spec fn view(&self) -> ActionView {
        match *self {
            Action::OpenRepository => Action::OpenRepository,
            Action::FindSubmodule(name) => Action::FindSubmodule(name@),
            Action::InitSubmodule { overwrite } => Action::InitSubmodule { overwrite },
            Action::SyncSubmodule => Action::SyncSubmodule,
            Action::ReadSubmodule => Action::ReadSubmodule,
            Action::OpenSubmodule => Action::OpenSubmodule,
            Action::InitRepository { use_gitlink } => Action::InitRepository { use_gitlink },
            Action::ReadGitFile => Action::ReadGitFile,
            Action::CloneSubmodule { allow_fetch } => Action::CloneSubmodule { allow_fetch },
            Action::LookForGitFile => Action::LookForGitFile,
            Action::WriteGitFile(content) => Action::WriteGitFile(content@),
            Action::UpdateSubmodule { init, allow_fetch } => Action::UpdateSubmodule {
                init,
                allow_fetch,
            },
            Action::ReadState => Action::ReadState,
            Action::ReadStatuses {
                include_untracked,
                recurse_untracked_dirs,
                ignore_untracked_below,
            } => Action::ReadStatuses {
                include_untracked,
                recurse_untracked_dirs,
                ignore_untracked_below,
            },
            Action::FindRemote(name) => Action::FindRemote(name@),
            Action::Fetch(reference) => Action::Fetch(text_of(reference)),
            Action::FindReference(name) => Action::FindReference(name@),
            Action::PeelReference => Action::PeelReference,
            Action::FindCommit(id) => Action::FindCommit(id@),
            Action::ReadCommitTree => Action::ReadCommitTree,
            Action::SearchCommitTree(path) => Action::SearchCommitTree(path@),
            Action::DetachHead(id) => Action::DetachHead(id@),
            Action::OpenIndex => Action::OpenIndex,
            Action::ReadHead => Action::ReadHead,
            Action::PeelHead => Action::PeelHead,
            Action::FillIndex => Action::FillIndex,
            Action::WriteIndex => Action::WriteIndex,
            Action::CheckoutHead { force } => Action::CheckoutHead { force },
            Action::Nothing => Action::Nothing,
        }
    }
}

/// What a successful operation brings, with texts of type `S` and a list of changed files of
/// type `L`. Commits are given by their hexadecimal ids.
#[derive(Debug)]
pub enum Answer<S, L> {
    /// The operation is done.
    Done,
    /// What is known of the submodule: its branch, the commit that its repository records for it,
    /// and the commit that it is at, as far as there are such.
    Submodule { branch: Option<S>, head_id: Option<S>, workdir_id: Option<S> },
    /// What a file holds.
    Text(S),
    /// Whether it is so.
    Verdict(bool),
    /// What is under way in a repository.
    State(RepositoryState),
    /// The files that are not as HEAD has them.
    Statuses(L),
    /// The commit that was found.
    Commit(S),
}

impl View for Answer<String, Vec<StatusEntry>> {
    type V = Answer<Seq<char>, Seq<StatusEntryView>>;

    open spec fn view(&self) -> Answer<Seq<char>, Seq<StatusEntryView>> {
        match *self {
            Answer::Done => Answer::Done,
            Answer::Submodule { branch, head_id, workdir_id } => Answer::Submodule {
                branch: text_of(branch),
                head_id: text_of(head_id),
                workdir_id: text_of(workdir_id),
            },
            Answer::Text(content) => Answer::Text(content@),
            Answer::Verdict(yes) => Answer::Verdict(yes),
            Answer::State(state) => Answer::State(state),
            Answer::Statuses(list) => Answer::Statuses(entries(list@)),
            Answer::Commit(id) => Answer::Commit(id@),
        }
    }
}

/// The result of an operation.
pub type Reply = Result<Answer<String, Vec<StatusEntry>>, Fault>;

/// The result of an operation, as a value.
pub type ReplyView = Result<Answer<Seq<char>, Seq<StatusEntryView>>, FaultView>;

/// A [`Reply`] as a value.
pub open spec fn reply_view(reply: Reply) -> ReplyView {
    match reply {
        Ok(answer) => Ok(answer@),
        Err(fault) => Err(fault@),
    }
}

/// What follows a reply, with failures of type `F`.
#[derive(Debug)]
pub enum Progress<F> {
    /// The next action is to be performed.
    Next,
    /// The same action is to be performed again, after the given number of milliseconds where
    /// there is one.
    Retry(Option<u64>),
    /// The checkout is finished.
    Finished(Result<CheckoutResult, F>),
    /// The checkout is in a state that should not be: the caller is to panic.
    Panic(F),
    /// The reply does not fit the action; it is disregarded.
    Unexpected,
}

impl View for Progress<Failure> {
    type V = Progress<Seq<Seq<char>>>;

    open spec fn view(&self) -> Progress<Seq<Seq<char>>> {
        match *self {
            Progress::Next => Progress::Next,
            Progress::Retry(wait) => Progress::Retry(wait),
            Progress::Finished(Ok(result)) => Progress::Finished(Ok(result)),
            Progress::Finished(Err(failure)) => Progress::Finished(Err(failure@)),
            Progress::Panic(failure) => Progress::Panic(failure@),
            Progress::Unexpected => Progress::Unexpected,
        }
    }
}

/// When an operation is tried again.
#[derive(Clone, Copy, Debug, PartialEq, Eq, Structural)]
pub enum RetryRule {
    /// After network trouble.
    Net,
    /// While a lock is held.
    Locked,
}

impl Phase {
    /// When the operation of this phase is tried again.
    pub open spec fn retry_rule(self) -> Option<RetryRule> {
        match self {
            Phase::InitSubmodule
            | Phase::SyncSubmodule
            | Phase::ResyncSubmodule => Some(RetryRule::Locked),
            Phase::UpdateSubmodule
            | Phase::FetchBranch
            | Phase::FetchCommit
            | Phase::FetchEverything => Some(RetryRule::Net),
            _ => None,
        }
    }

    /// How many times the operation of this phase may be tried again.
    pub open spec fn retry_limit(self) -> nat {
        match self.retry_rule() {
            Some(RetryRule::Net) => NET_RETRIES as nat,
            Some(RetryRule::Locked) => LOCK_RETRIES as nat,
            None => 0,
        }
    }

    /// Whether a reply can be the result of the operation of this phase.
    pub open spec fn fits(self, reply: ReplyView) -> bool {
        match (self, reply) {
            (Phase::Finished, _) => false,
            (Phase::ReadSubmodule, Ok(answer)) => answer is Submodule,
            (Phase::ReadGitFile, Ok(answer)) => answer is Text,
            (Phase::LookForGitFile | Phase::SearchCommitTree, Ok(answer)) => answer is Verdict,
            (Phase::ReadState, Ok(answer)) => answer is State,
            (Phase::ReadStatuses, Ok(answer)) => answer is Statuses,
            (Phase::PeelReference, Ok(answer)) => answer is Commit,
            (_, Ok(answer)) => answer is Done,
            (Phase::ReadSubmodule | Phase::LookForGitFile | Phase::ReadState, Err(_)) => false,
            (_, Err(_)) => true,
        }
    }
}

/// The state of a [`Checkout`], as a value.
#[verifier::ext_equal]
pub struct CheckoutView {
    pub request: RequestView,
    pub phase: Phase,
    /// How many attempts at the operation of this phase failed.
    pub failures: nat,
    /// The branch of the submodule.
    pub branch: Option<Seq<char>>,
    /// The commit that the repository records for the submodule.
    pub head_id: Seq<char>,
    /// The commit that the submodule is at.
    pub workdir_id: Option<Seq<char>>,
    /// What the `.git` file of the submodule holds.
    pub git_file: Seq<char>,
    /// The untracked files of the submodule.
    pub untracked: Seq<FilePathView>,
    /// How many of them are known not to be in the target.
    pub searched: nat,
    /// The commit to move to.
    pub target_id: Seq<char>,
}

/// The decision that a reply leads to.
pub enum Turn {
    /// The checkout goes on from this state.
    Goto(CheckoutView),
    /// The checkout fails with these messages, the outermost first.
    Fail(Seq<Seq<char>>),
    /// The checkout succeeds.
    Finish(CheckoutResult),
    /// The caller is to panic.
    Panic(Seq<Seq<char>>),
}

/// A checkout before its first operation.
pub open spec fn start(request: RequestView) -> CheckoutView {
    CheckoutView {
        request,
        phase: Phase::OpenRepository,
        failures: 0,
        branch: None,
        head_id: seq![],
        workdir_id: None,
        git_file: seq![],
        untracked: seq![],
        searched: 0,
        target_id: seq![],
    }
}

impl CheckoutView {
    /// What holds of every checkout: the operation was not tried again too often, a submodule
    /// that is looked for has a name, and a file that is looked for is in the list.
    pub open spec fn valid(self) -> bool {
        &&& self.failures <= self.phase.retry_limit()
        &&& self.phase == Phase::FindSubmodule ==> self.request.lookup_name() is Some
        &&& self.phase == Phase::SearchCommitTree ==> self.searched < self.untracked.len()
    }

    /// The same checkout at the start of another phase.
    pub open spec fn at(self, phase: Phase) -> CheckoutView {
        CheckoutView { phase, failures: 0, ..self }
    }

    /// The branch to bump to.
    pub open spec fn branch_name(self) -> Seq<char> {
        match self.branch {
            Some(branch) => branch,
            None => "HEAD"@,
        }
    }

    /// The reference that holds the branch of the remote.
    pub open spec fn reference(self) -> Seq<char> {
        "refs/remotes/origin/"@ + self.branch_name()
    }

    /// The operation that comes next.
    pub open spec fn action(self) -> ActionView {
        match self.phase {
            Phase::OpenRepository => Action::OpenRepository,
            Phase::FindSubmodule => Action::FindSubmodule(self.request.lookup_name()->0),
            Phase::InitSubmodule => Action::InitSubmodule { overwrite: false },
            Phase::SyncSubmodule | Phase::ResyncSubmodule => Action::SyncSubmodule,
            Phase::ReadSubmodule => Action::ReadSubmodule,
            Phase::OpenSubmodule | Phase::ReopenSubmodule => Action::OpenSubmodule,
            Phase::InitRepository => Action::InitRepository { use_gitlink: true },
            Phase::ReadGitFile => Action::ReadGitFile,
            Phase::CloneSubmodule => Action::CloneSubmodule { allow_fetch: false },
            Phase::LookForGitFile => Action::LookForGitFile,
            Phase::RestoreGitFile => Action::WriteGitFile(self.git_file),
            Phase::UpdateSubmodule => Action::UpdateSubmodule { init: true, allow_fetch: false },
            Phase::ReadState => Action::ReadState,
            Phase::ReadStatuses => Action::ReadStatuses {
                include_untracked: true,
                recurse_untracked_dirs: true,
                ignore_untracked_below: true,
            },
            Phase::FindBranchRemote | Phase::FindCommitRemote => Action::FindRemote("origin"@),
            Phase::FetchBranch => Action::Fetch(Some(self.branch_name())),
            Phase::FindReference => Action::FindReference(self.reference()),
            Phase::PeelReference => Action::PeelReference,
            Phase::FindCommit | Phase::RefindCommit => Action::FindCommit(self.target_id),
            Phase::FetchCommit => Action::Fetch(
                Some("+"@ + self.target_id + ":"@ + self.target_id),
            ),
            Phase::FetchEverything => Action::Fetch(None),
            Phase::ReadCommitTree => Action::ReadCommitTree,
            Phase::SearchCommitTree => Action::SearchCommitTree(
                self.untracked[self.searched as int].bytes,
            ),
            Phase::DetachHead => Action::DetachHead(self.target_id),
            Phase::OpenIndex => Action::OpenIndex,
            Phase::ReadHead => Action::ReadHead,
            Phase::PeelHead => Action::PeelHead,
            Phase::FillIndex => Action::FillIndex,
            Phase::WriteIndex => Action::WriteIndex,
            Phase::RefreshWorktree | Phase::CheckoutHead => Action::CheckoutHead { force: true },
            Phase::Finished => Action::Nothing,
        }
    }

    /// What could not be done where the operation of this phase fails, where more is said of it
    /// than the error itself.
    pub open spec fn complaint(self) -> Option<Seq<char>> {
        match self.phase {
            Phase::OpenRepository => Some(
                "Could not open repository at path '"@ + self.request.repository + "'"@,
            ),
            Phase::FindSubmodule => Some("Could not find submodule"@),
            Phase::InitSubmodule => Some("Could not init submodule"@),
            Phase::SyncSubmodule | Phase::ResyncSubmodule => Some("Could not sync submodule"@),
            Phase::InitRepository => Some("Could not initialize submodule"@),
            Phase::ReadGitFile => Some("Not able to read .git file"@),
            Phase::CloneSubmodule => Some("Could not clone submodule"@),
            Phase::RestoreGitFile => Some("Unable to write .git file"@),
            Phase::UpdateSubmodule => Some("Could not update submodule"@),
            Phase::ReopenSubmodule => Some("Could not open submodule"@),
            Phase::ReadStatuses => Some("Could not access submodule status"@),
            Phase::FindBranchRemote | Phase::FindCommitRemote => Some(
                "Could not find submodule remote"@,
            ),
            Phase::FetchBranch => Some("Could not fetch remote branch"@),
            Phase::FindReference => Some(
                "Could not find reference "@ + self.reference() + " in submodule "@
                    + self.request.path,
            ),
            Phase::PeelReference => Some(
                "Could not get commit from reference "@ + self.reference() + " in submodule "@
                    + self.request.path,
            ),
            Phase::FetchCommit | Phase::FetchEverything => Some("Could not fetch submodule"@),
            Phase::RefindCommit => Some("Could not find commit in submodule"@),
            Phase::ReadCommitTree | Phase::SearchCommitTree => Some(
                "Could not get commit's tree"@,
            ),
            Phase::DetachHead => Some("Could not set head in submodule"@),
            Phase::OpenIndex => Some("Could not get submodule's index file"@),
            Phase::RefreshWorktree | Phase::CheckoutHead => Some("Could not checkout head"@),
            _ => None,
        }
    }

    /// The messages of an error of this phase.
    pub open spec fn messages(self, fault: FaultView) -> Seq<Seq<char>> {
        match self.complaint() {
            Some(complaint) => seq![complaint, fault.message],
            None => seq![fault.message],
        }
    }

    /// Goes for a target: nothing is to move where the submodule is there already.
    pub open spec fn aim(self, target_id: Seq<char>) -> CheckoutView {
        let aimed = CheckoutView { target_id, ..self };
        if self.workdir_id == Some(target_id) {
            aimed.at(Phase::RefreshWorktree)
        } else {
            aimed.at(Phase::FindCommit)
        }
    }

    /// Goes on once nothing stands in the way: to the recorded commit, or to the remote for the
    /// tip of the branch.
    pub open spec fn choose_target(self) -> CheckoutView {
        match self.request.operation {
            Operation::Checkout => self.aim(self.head_id),
            Operation::Bump => self.at(Phase::FindBranchRemote),
        }
    }

    /// Goes on once the submodule is open.
    pub open spec fn inspect(self) -> CheckoutView {
        if self.request.force_checkout {
            self.choose_target()
        } else {
            self.at(Phase::ReadState)
        }
    }

    /// Goes on once the target is known to exist.
    pub open spec fn guard(self) -> CheckoutView {
        if self.request.force_checkout {
            self.at(Phase::DetachHead)
        } else {
            self.at(Phase::ReadCommitTree)
        }
    }

    /// Goes on once the first `searched` untracked files are known not to be in the target.
    pub open spec fn search(self, searched: nat) -> CheckoutView {
        let found = CheckoutView { searched, ..self };
        if searched < self.untracked.len() {
            found.at(Phase::SearchCommitTree)
        } else {
            found.at(Phase::DetachHead)
        }
    }

    /// Why a worktree with these changes cannot be checked out.
    pub open spec fn untidy_message(self, list: Seq<StatusEntryView>) -> Seq<char> {
        "Repository '"@ + self.request.path + "' is not clean: "@ + decimal(
            changes(list, Change::Conflict).len(),
        ) + " conflicts, "@ + decimal(changes(list, Change::Indexed).len()) + " indexed, "@
            + decimal(changes(list, Change::Modified).len()) + " modified"@
    }

    /// The decision after the operation of this phase succeeded.
    pub open spec fn succeeded(self, answer: Answer<Seq<char>, Seq<StatusEntryView>>) -> Turn {
        match self.phase {
            Phase::OpenRepository => if self.request.lookup_name() is Some {
                Turn::Goto(self.at(Phase::FindSubmodule))
            } else {
                Turn::Fail(seq!["Unsupported Non-UTF8 path '"@ + self.request.path + "'"@])
            },
            Phase::FindSubmodule => Turn::Goto(self.at(Phase::InitSubmodule)),
            Phase::InitSubmodule => Turn::Goto(self.at(Phase::SyncSubmodule)),
            Phase::SyncSubmodule => Turn::Goto(self.at(Phase::ReadSubmodule)),
            Phase::ReadSubmodule => match answer->head_id {
                Some(head_id) => Turn::Goto(
                    CheckoutView {
                        branch: answer->branch,
                        head_id,
                        workdir_id: answer->workdir_id,
                        ..self
                    }.at(Phase::OpenSubmodule),
                ),
                None => Turn::Fail(seq!["no head id for submodule"@]),
            },
            Phase::OpenSubmodule | Phase::ReopenSubmodule => Turn::Goto(self.inspect()),
            Phase::InitRepository => Turn::Goto(self.at(Phase::ReadGitFile)),
            Phase::ReadGitFile => Turn::Goto(
                CheckoutView { git_file: answer->Text_0, ..self }.at(Phase::CloneSubmodule),
            ),
            Phase::CloneSubmodule | Phase::RestoreGitFile => Turn::Goto(
                self.at(Phase::UpdateSubmodule),
            ),
            Phase::LookForGitFile => if answer->Verdict_0 {
                Turn::Goto(self.at(Phase::UpdateSubmodule))
            } else {
                Turn::Goto(self.at(Phase::RestoreGitFile))
            },
            Phase::UpdateSubmodule => Turn::Goto(self.at(Phase::ResyncSubmodule)),
            Phase::ResyncSubmodule => Turn::Goto(self.at(Phase::ReopenSubmodule)),
            Phase::ReadState => if answer->State_0 == RepositoryState::Clean {
                Turn::Goto(self.at(Phase::ReadStatuses))
            } else {
                Turn::Fail(
                    seq!["The submodule is not in a clean state (is a rebase in progress?"@],
                )
            },
            Phase::ReadStatuses => if tidy(answer->Statuses_0) {
                Turn::Goto(
                    CheckoutView {
                        untracked: untracked_paths(answer->Statuses_0),
                        ..self
                    }.choose_target(),
                )
            } else {
                Turn::Fail(seq![self.untidy_message(answer->Statuses_0)])
            },
            Phase::FindBranchRemote => Turn::Goto(self.at(Phase::FetchBranch)),
            Phase::FetchBranch => Turn::Goto(self.at(Phase::FindReference)),
            Phase::FindReference => Turn::Goto(self.at(Phase::PeelReference)),
            Phase::PeelReference => Turn::Goto(self.aim(answer->Commit_0)),
            Phase::RefreshWorktree => Turn::Finish(CheckoutResult::Unchanged),
            Phase::FindCommit | Phase::RefindCommit => Turn::Goto(self.guard()),
            Phase::FindCommitRemote => Turn::Goto(self.at(Phase::FetchCommit)),
            Phase::FetchCommit | Phase::FetchEverything => Turn::Goto(
                self.at(Phase::RefindCommit),
            ),
            Phase::ReadCommitTree => Turn::Goto(self.search(0)),
            Phase::SearchCommitTree => if answer->Verdict_0 {
                Turn::Fail(
                    seq![
                        "'"@ + self.untracked[self.searched as int].shown
                            + "' would be overwritten by checkout"@,
                    ],
                )
            } else {
                Turn::Goto(self.search(self.searched + 1))
            },
            Phase::DetachHead => Turn::Goto(self.at(Phase::OpenIndex)),
            Phase::OpenIndex => Turn::Goto(self.at(Phase::ReadHead)),
            Phase::ReadHead => Turn::Goto(self.at(Phase::PeelHead)),
            Phase::PeelHead => Turn::Goto(self.at(Phase::FillIndex)),
            Phase::FillIndex => Turn::Goto(self.at(Phase::WriteIndex)),
            Phase::WriteIndex => Turn::Goto(self.at(Phase::CheckoutHead)),
            Phase::CheckoutHead => Turn::Finish(CheckoutResult::Changed),
            Phase::Finished => Turn::Goto(self),
        }
    }

    /// The decision after the operation of this phase failed for good.
    ///
    /// A submodule that cannot be opened is made. A clone that the operating system broke off is
    /// taken up by the update, once the `.git` file is back. An update that misses a commit is
    /// good enough, since the commit is fetched later. A commit that is not there is fetched, by
    /// its id, or with everything else from a remote that does not give out single commits.
    pub open spec fn failed(self, fault: FaultView) -> Turn {
        match self.phase {
            Phase::OpenSubmodule => Turn::Goto(self.at(Phase::InitRepository)),
            Phase::CloneSubmodule if fault.class == ErrorClass::Os => Turn::Goto(
                self.at(Phase::LookForGitFile),
            ),
            Phase::UpdateSubmodule if fault.missing_object() => Turn::Goto(
                self.at(Phase::ResyncSubmodule),
            ),
            Phase::FindCommit => Turn::Goto(self.at(Phase::FindCommitRemote)),
            Phase::FetchCommit if fault.missing_object() => Turn::Goto(
                self.at(Phase::FetchEverything),
            ),
            Phase::ResyncSubmodule => Turn::Panic(self.messages(fault)),
            _ => Turn::Fail(self.messages(fault)),
        }
    }

    /// Whether the operation of this phase is tried again after an error.
    pub open spec fn tries_again(self, fault: FaultView) -> bool {
        &&& self.failures < self.phase.retry_limit()
        &&& match self.phase.retry_rule() {
            Some(RetryRule::Net) => net_trouble(fault),
            Some(RetryRule::Locked) => lock_trouble(fault),
            None => false,
        }
    }

    /// What a decision leads to.
    pub open spec fn settle(self, turn: Turn) -> (CheckoutView, Progress<Seq<Seq<char>>>) {
        match turn {
            Turn::Goto(next) => (next, Progress::Next),
            Turn::Fail(messages) => (
                self.at(Phase::Finished),
                Progress::Finished(Err(messages)),
            ),
            Turn::Finish(result) => (self.at(Phase::Finished), Progress::Finished(Ok(result))),
            Turn::Panic(messages) => (self.at(Phase::Finished), Progress::Panic(messages)),
        }
    }

    /// What follows a reply.
    pub open spec fn step(self, reply: ReplyView) -> (CheckoutView, Progress<Seq<Seq<char>>>) {
        if !self.phase.fits(reply) {
            (self, Progress::Unexpected)
        } else {
            match reply {
                Ok(answer) => self.settle(self.succeeded(answer)),
                Err(fault) => if self.tries_again(fault) {
                    (
                        CheckoutView { failures: self.failures + 1, ..self },
                        Progress::Retry(Some(RETRY_INTERVAL)),
                    )
                } else {
                    self.settle(self.failed(fault))
                },
            }
        }
    }
}

/// A request is seen as it is.
pub proof fn law_requests_are_seen_whole(request: Request)
    ensures
        request@.repository == request.repository@,
        request@.path == request.path@,
        request@.utf8_path == text_of(request.utf8_path),
        request@.submodule_name == text_of(request.submodule_name),
        request@.operation == request.operation,
        request@.force_checkout == request.force_checkout,
{
}

/// An operation is seen with the arguments that it has.
pub proof fn law_actions_are_seen_whole(action: Action<String, Vec<u8>>)
    ensures
        match action {
            Action::OpenRepository => action@ == ActionView::OpenRepository,
            Action::FindSubmodule(name) => action@ == ActionView::FindSubmodule(name@),
            Action::InitSubmodule { overwrite } => action@ == ActionView::InitSubmodule {
                overwrite,
            },
            Action::SyncSubmodule => action@ == ActionView::SyncSubmodule,
            Action::ReadSubmodule => action@ == ActionView::ReadSubmodule,
            Action::OpenSubmodule => action@ == ActionView::OpenSubmodule,
            Action::InitRepository { use_gitlink } => action@ == ActionView::InitRepository {
                use_gitlink,
            },
            Action::ReadGitFile => action@ == ActionView::ReadGitFile,
            Action::CloneSubmodule { allow_fetch } => action@ == ActionView::CloneSubmodule {
                allow_fetch,
            },
            Action::LookForGitFile => action@ == ActionView::LookForGitFile,
            Action::WriteGitFile(content) => action@ == ActionView::WriteGitFile(content@),
            Action::UpdateSubmodule { init, allow_fetch } => action@
                == ActionView::UpdateSubmodule { init, allow_fetch },
            Action::ReadState => action@ == ActionView::ReadState,
            Action::ReadStatuses {
                include_untracked,
                recurse_untracked_dirs,
                ignore_untracked_below,
            } => action@ == ActionView::ReadStatuses {
                include_untracked,
                recurse_untracked_dirs,
                ignore_untracked_below,
            },
            Action::FindRemote(name) => action@ == ActionView::FindRemote(name@),
            Action::Fetch(Some(reference)) => action@ == ActionView::Fetch(Some(reference@)),
            Action::Fetch(None) => action@ == ActionView::Fetch(None),
            Action::FindReference(name) => action@ == ActionView::FindReference(name@),
            Action::PeelReference => action@ == ActionView::PeelReference,
            Action::FindCommit(id) => action@ == ActionView::FindCommit(id@),
            Action::ReadCommitTree => action@ == ActionView::ReadCommitTree,
            Action::SearchCommitTree(path) => action@ == ActionView::SearchCommitTree(path@),
            Action::DetachHead(id) => action@ == ActionView::DetachHead(id@),
            Action::OpenIndex => action@ == ActionView::OpenIndex,
            Action::ReadHead => action@ == ActionView::ReadHead,
            Action::PeelHead => action@ == ActionView::PeelHead,
            Action::FillIndex => action@ == ActionView::FillIndex,
            Action::WriteIndex => action@ == ActionView::WriteIndex,
            Action::CheckoutHead { force } => action@ == ActionView::CheckoutHead { force },
            Action::Nothing => action@ == ActionView::Nothing,
        },
{
}

/// A reply is seen as what it brings, and progress as what it says.
pub proof fn law_replies_are_seen_whole(reply: Reply, progress: Progress<Failure>)
    ensures
        match reply {
            Ok(Answer::Done) => reply_view(reply) == ReplyView::Ok(Answer::Done),
            Ok(Answer::Submodule { branch, head_id, workdir_id }) => reply_view(reply)
                == ReplyView::Ok(
                Answer::Submodule {
                    branch: text_of(branch),
                    head_id: text_of(head_id),
                    workdir_id: text_of(workdir_id),
                },
            ),
            Ok(Answer::Text(content)) => reply_view(reply) == ReplyView::Ok(Answer::Text(content@)),
            Ok(Answer::Verdict(yes)) => reply_view(reply) == ReplyView::Ok(Answer::Verdict(yes)),
            Ok(Answer::State(state)) => reply_view(reply) == ReplyView::Ok(Answer::State(state)),
            Ok(Answer::Statuses(list)) => reply_view(reply) == ReplyView::Ok(
                Answer::Statuses(entries(list@)),
            ),
            Ok(Answer::Commit(id)) => reply_view(reply) == ReplyView::Ok(Answer::Commit(id@)),
            Err(fault) => reply_view(reply) == ReplyView::Err(fault@),
        },
        match progress {
            Progress::Next => progress@ == Progress::<Seq<Seq<char>>>::Next,
            Progress::Retry(wait) => progress@ == Progress::<Seq<Seq<char>>>::Retry(wait),
            Progress::Finished(Ok(result)) => progress@ == Progress::Finished(
                Ok::<CheckoutResult, Seq<Seq<char>>>(result),
            ),
            Progress::Finished(Err(failure)) => progress@ == Progress::Finished(
                Err::<CheckoutResult, Seq<Seq<char>>>(failure@),
            ),
            Progress::Panic(failure) => progress@ == Progress::<Seq<Seq<char>>>::Panic(failure@),
            Progress::Unexpected => progress@ == Progress::<Seq<Seq<char>>>::Unexpected,
        },
{
}

} // verus!
