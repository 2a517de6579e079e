//! The checkout of one submodule, as a sequence of decisions.
//!
//! A [`Checkout`] says by [`Checkout::action`] which operation on the repository comes next. The
//! caller performs it and hands the result to [`Checkout::step`], until the checkout is finished.
use crate::failure::{ErrorClass, Failure, Fault};
use crate::model::{
    reply_view, start, Action, Answer, CheckoutView, Phase, Progress, Reply, Request, RetryRule,
};
use crate::plan::Operation;
use crate::retry::{retry_if_locked, retry_if_net, Attempt};
use crate::status::{
    entries, file_paths, law_tidy_counts_nothing, survey, FilePath, RepositoryState, StatusEntry,
    StatusEntryView,
};
use crate::text::{copy_option, decimal_text, join, text_of};
use crate::CheckoutResult;
use vstd::prelude::*;

verus! {

impl Phase {
    /// When the operation of this phase is tried again.
    fn rule(self) -> (rule: Option<RetryRule>)
        ensures
            rule == self.retry_rule(),
    {
        match self {
            Phase::InitSubmodule | Phase::SyncSubmodule | Phase::ResyncSubmodule => Some(
                RetryRule::Locked,
            ),
            Phase::UpdateSubmodule
            | Phase::FetchBranch
            | Phase::FetchCommit
            | Phase::FetchEverything => Some(RetryRule::Net),
            _ => None,
        }
    }

    /// Whether `reply` can be the result of the operation of this phase.
    fn accepts(self, reply: &Reply) -> (b: bool)
        ensures
            b == self.fits(reply_view(*reply)),
    {
        match reply {
            Ok(answer) => match self {
                Phase::Finished => false,
                Phase::ReadSubmodule => matches!(answer, Answer::Submodule { .. }),
                Phase::ReadGitFile => matches!(answer, Answer::Text(_)),
                Phase::LookForGitFile | Phase::SearchCommitTree => matches!(
                    answer,
                    Answer::Verdict(_)
                ),
                Phase::ReadState => matches!(answer, Answer::State(_)),
                Phase::ReadStatuses => matches!(answer, Answer::Statuses(_)),
                Phase::PeelReference => matches!(answer, Answer::Commit(_)),
                _ => matches!(answer, Answer::Done),
            },
            Err(_) => match self {
                Phase::Finished
                | Phase::ReadSubmodule
                | Phase::LookForGitFile
                | Phase::ReadState => false,
                _ => true,
            },
        }
    }
}

/// The checkout of one submodule.
#[derive(Debug)]
pub struct Checkout {
    request: Request,
    phase: Phase,
    failures: usize,
    branch: Option<String>,
    head_id: String,
    workdir_id: Option<String>,
    git_file: String,
    untracked: Vec<FilePath>,
    searched: usize,
    target_id: String,
}

impl View for Checkout {
    type V = CheckoutView;

    closed spec fn view(&self) -> CheckoutView {
        CheckoutView {
            request: self.request@,
            phase: self.phase,
            failures: self.failures as nat,
            branch: text_of(self.branch),
            head_id: self.head_id@,
            workdir_id: text_of(self.workdir_id),
            git_file: self.git_file@,
            untracked: file_paths(self.untracked@),
            searched: self.searched as nat,
            target_id: self.target_id@,
        }
    }
}

impl Checkout {
    #[verifier::type_invariant]
    spec fn well_formed(&self) -> bool {
        self@.valid()
    }

    /// A checkout before its first operation.
    pub fn new(request: Request) -> (checkout: Checkout)
        ensures
            checkout@ == start(request@),
            checkout@.valid(),
    {
        let checkout = Checkout {
            request,
            phase: Phase::OpenRepository,
            failures: 0,
            branch: None,
            head_id: String::new(),
            workdir_id: None,
            git_file: String::new(),
            untracked: Vec::new(),
            searched: 0,
            target_id: String::new(),
        };
        assert(file_paths(checkout.untracked@) =~= seq![]);
        checkout
    }

    /// How far the checkout has come.
    pub fn phase(&self) -> (phase: Phase)
        ensures
            phase == self@.phase,
    {
        self.phase
    }

    /// The commit that the submodule was at before the checkout, where it was at one.
    pub fn workdir_id(&self) -> (id: Option<String>)
        ensures
            text_of(id) == self@.workdir_id,
    {
        copy_option(&self.workdir_id)
    }

    /// The commit to move to.
    pub fn target_id(&self) -> (id: String)
        ensures
            id@ == self@.target_id,
    {
        self.target_id.clone()
    }

    /// The name by which git finds the submodule.
    fn lookup_name(&self) -> (name: Option<String>)
        ensures
            text_of(name) == self@.request.lookup_name(),
    {
        if self.request.submodule_name.is_some() {
            copy_option(&self.request.submodule_name)
        } else {
            copy_option(&self.request.utf8_path)
        }
    }

    /// The branch to bump to.
    fn branch_name(&self) -> (name: String)
        ensures
            name@ == self@.branch_name(),
    {
        match &self.branch {
            Some(branch) => branch.clone(),
            None => "HEAD".to_owned(),
        }
    }

    /// The reference that holds the branch of the remote.
    fn reference(&self) -> (name: String)
        ensures
            name@ == self@.reference(),
    {
        let mut name = "refs/remotes/origin/".to_owned();
        name.append(self.branch_name().as_str());
        name
    }

    /// The operation that comes next.
    pub fn action(&self) -> (action: Action<String, Vec<u8>>)
        ensures
            action@ == self@.action(),
    {
        proof {
            use_type_invariant(self);
        }
        match self.phase {
            Phase::OpenRepository => Action::OpenRepository,
            Phase::FindSubmodule => match self.lookup_name() {
                Some(name) => Action::FindSubmodule(name),
                None => Action::Nothing,
            },
            Phase::InitSubmodule => Action::InitSubmodule { overwrite: false },
            Phase::SyncSubmodule | Phase::ResyncSubmodule => Action::SyncSubmodule,
            Phase::ReadSubmodule => Action::ReadSubmodule,
            Phase::OpenSubmodule | Phase::ReopenSubmodule => Action::OpenSubmodule,
            Phase::InitRepository => Action::InitRepository { use_gitlink: true },
            Phase::ReadGitFile => Action::ReadGitFile,
            Phase::CloneSubmodule => Action::CloneSubmodule { allow_fetch: false },
            Phase::LookForGitFile => Action::LookForGitFile,
            Phase::RestoreGitFile => Action::WriteGitFile(self.git_file.clone()),
            Phase::UpdateSubmodule => Action::UpdateSubmodule { init: true, allow_fetch: false },
            Phase::ReadState => Action::ReadState,
            Phase::ReadStatuses => Action::ReadStatuses {
                include_untracked: true,
                recurse_untracked_dirs: true,
                ignore_untracked_below: true,
            },
            Phase::FindBranchRemote | Phase::FindCommitRemote => Action::FindRemote(
                "origin".to_owned(),
            ),
            Phase::FetchBranch => Action::Fetch(Some(self.branch_name())),
            Phase::FindReference => Action::FindReference(self.reference()),
            Phase::PeelReference => Action::PeelReference,
            Phase::FindCommit | Phase::RefindCommit => Action::FindCommit(self.target_id.clone()),
            Phase::FetchCommit => {
                let mut refspec = join("+", self.target_id.as_str(), ":");
                refspec.append(self.target_id.as_str());
                Action::Fetch(Some(refspec))
            },
            Phase::FetchEverything => Action::Fetch(None),
            Phase::ReadCommitTree => Action::ReadCommitTree,
            Phase::SearchCommitTree => Action::SearchCommitTree(
                self.untracked[self.searched].copy().bytes,
            ),
            Phase::DetachHead => Action::DetachHead(self.target_id.clone()),
            Phase::OpenIndex => Action::OpenIndex,
            Phase::ReadHead => Action::ReadHead,
            Phase::PeelHead => Action::PeelHead,
            Phase::FillIndex => Action::FillIndex,
            Phase::WriteIndex => Action::WriteIndex,
            Phase::RefreshWorktree | Phase::CheckoutHead => Action::CheckoutHead { force: true },
            Phase::Finished => Action::Nothing,
        }
    }

    /// What could not be done where the operation of this phase fails.
    fn complaint(&self) -> (complaint: Option<String>)
        ensures
            text_of(complaint) == self@.complaint(),
    {
        match self.phase {
            Phase::OpenRepository => Some(
                join("Could not open repository at path '", self.request.repository.as_str(), "'"),
            ),
            Phase::FindSubmodule => Some("Could not find submodule".to_owned()),
            Phase::InitSubmodule => Some("Could not init submodule".to_owned()),
            Phase::SyncSubmodule | Phase::ResyncSubmodule => Some(
                "Could not sync submodule".to_owned(),
            ),
            Phase::InitRepository => Some("Could not initialize submodule".to_owned()),
            Phase::ReadGitFile => Some("Not able to read .git file".to_owned()),
            Phase::CloneSubmodule => Some("Could not clone submodule".to_owned()),
            Phase::RestoreGitFile => Some("Unable to write .git file".to_owned()),
            Phase::UpdateSubmodule => Some("Could not update submodule".to_owned()),
            Phase::ReopenSubmodule => Some("Could not open submodule".to_owned()),
            Phase::ReadStatuses => Some("Could not access submodule status".to_owned()),
            Phase::FindBranchRemote | Phase::FindCommitRemote => Some(
                "Could not find submodule remote".to_owned(),
            ),
            Phase::FetchBranch => Some("Could not fetch remote branch".to_owned()),
            Phase::FindReference => {
                let reference = self.reference();
                let mut text = join(
                    "Could not find reference ",
                    reference.as_str(),
                    " in submodule ",
                );
                text.append(self.request.path.as_str());
                Some(text)
            },
            Phase::PeelReference => {
                let reference = self.reference();
                let mut text = join(
                    "Could not get commit from reference ",
                    reference.as_str(),
                    " in submodule ",
                );
                text.append(self.request.path.as_str());
                Some(text)
            },
            Phase::FetchCommit | Phase::FetchEverything => Some(
                "Could not fetch submodule".to_owned(),
            ),
            Phase::RefindCommit => Some("Could not find commit in submodule".to_owned()),
            Phase::ReadCommitTree | Phase::SearchCommitTree => Some(
                "Could not get commit's tree".to_owned(),
            ),
            Phase::DetachHead => Some("Could not set head in submodule".to_owned()),
            Phase::OpenIndex => Some("Could not get submodule's index file".to_owned()),
            Phase::RefreshWorktree | Phase::CheckoutHead => Some(
                "Could not checkout head".to_owned(),
            ),
            _ => None,
        }
    }

    /// The failure that an error of this phase is.
    fn failure(&self, fault: Fault) -> (failure: Failure)
        ensures
            failure@ == self@.messages(fault@),
    {
        let cause = Failure::new(fault.message);
        match self.complaint() {
            Some(complaint) => {
                let failure = cause.context(complaint);
                assert(failure@ =~= seq![complaint@, fault.message@]);
                failure
            },
            None => cause,
        }
    }

    /// Starts another phase.
    fn go(&mut self, phase: Phase) -> (progress: Progress<Failure>)
        requires
            old(self)@.at(phase).valid(),
        ensures
            final(self)@ == old(self)@.at(phase),
            progress == Progress::<Failure>::Next,
    {
        proof {
            use_type_invariant(&*self);
        }
        self.failures = 0;
        self.phase = phase;
        Progress::Next
    }

    /// Ends the checkout with a failure.
    fn give_up(&mut self, failure: Failure) -> (progress: Progress<Failure>)
        ensures
            final(self)@ == old(self)@.at(Phase::Finished),
            progress == Progress::Finished(Err::<CheckoutResult, Failure>(failure)),
    {
        self.go(Phase::Finished);
        Progress::Finished(Err(failure))
    }

    /// Ends the checkout with success.
    fn finish(&mut self, result: CheckoutResult) -> (progress: Progress<Failure>)
        ensures
            final(self)@ == old(self)@.at(Phase::Finished),
            progress == Progress::Finished(Ok::<CheckoutResult, Failure>(result)),
    {
        self.go(Phase::Finished);
        Progress::Finished(Ok(result))
    }

    /// Goes for a target.
    fn aim(&mut self, target_id: String) -> (progress: Progress<Failure>)
        ensures
            final(self)@ == old(self)@.aim(target_id@),
            progress == Progress::<Failure>::Next,
    {
        proof {
            use_type_invariant(&*self);
        }
        let there = match &self.workdir_id {
            Some(id) => *id == target_id,
            None => false,
        };
        self.target_id = target_id;
        if there {
            self.go(Phase::RefreshWorktree)
        } else {
            self.go(Phase::FindCommit)
        }
    }

    /// Goes on once nothing stands in the way.
    fn choose_target(&mut self) -> (progress: Progress<Failure>)
        ensures
            final(self)@ == old(self)@.choose_target(),
            progress == Progress::<Failure>::Next,
    {
        match self.request.operation {
            Operation::Checkout => {
                let head_id = self.head_id.clone();
                self.aim(head_id)
            },
            Operation::Bump => self.go(Phase::FindBranchRemote),
        }
    }

    /// Goes on once the submodule is open.
    fn inspect(&mut self) -> (progress: Progress<Failure>)
        ensures
            final(self)@ == old(self)@.inspect(),
            progress == Progress::<Failure>::Next,
    {
        if self.request.force_checkout {
            self.choose_target()
        } else {
            self.go(Phase::ReadState)
        }
    }

    /// Goes on once the target is known to exist.
    fn guard(&mut self) -> (progress: Progress<Failure>)
        ensures
            final(self)@ == old(self)@.guard(),
            progress == Progress::<Failure>::Next,
    {
        if self.request.force_checkout {
            self.go(Phase::DetachHead)
        } else {
            self.go(Phase::ReadCommitTree)
        }
    }

    /// Goes on once the first `searched` untracked files are known not to be in the target.
    fn search(&mut self, searched: usize) -> (progress: Progress<Failure>)
        ensures
            final(self)@ == old(self)@.search(searched as nat),
            progress == Progress::<Failure>::Next,
    {
        proof {
            use_type_invariant(&*self);
        }
        if searched < self.untracked.len() {
            self.searched = searched;
            self.go(Phase::SearchCommitTree)
        } else {
            self.go(Phase::DetachHead);
            self.searched = searched;
            Progress::Next
        }
    }

    /// Goes on from the state of the worktree.
    fn consider(&mut self, list: Vec<StatusEntry>) -> (progress: Progress<Failure>)
        requires
            old(self)@.phase == Phase::ReadStatuses,
        ensures
            (final(self)@, progress@) == old(self)@.settle(
                old(self)@.succeeded(
                    Answer::<Seq<char>, Seq<StatusEntryView>>::Statuses(entries(list@)),
                ),
            ),
    {
        let survey = survey(&list);
        proof {
            use_type_invariant(&*self);
            law_tidy_counts_nothing(entries(list@));
        }
        if survey.conflicts != 0 || survey.indexed != 0 || survey.modified != 0 {
            let mut text = join("Repository '", self.request.path.as_str(), "' is not clean: ");
            text.append(decimal_text(survey.conflicts).as_str());
            text.append(" conflicts, ");
            text.append(decimal_text(survey.indexed).as_str());
            text.append(" indexed, ");
            text.append(decimal_text(survey.modified).as_str());
            text.append(" modified");
            self.give_up(Failure::new(text))
        } else {
            self.untracked = survey.untracked;
            self.choose_target()
        }
    }

    /// Goes on after the operation of this phase succeeded.
    fn succeed(&mut self, answer: Answer<String, Vec<StatusEntry>>) -> (progress: Progress<Failure>)
        requires
            old(self)@.phase.fits(Ok(answer@)),
        ensures
            (final(self)@, progress@) == old(self)@.settle(old(self)@.succeeded(answer@)),
    {
        proof {
            use_type_invariant(&*self);
        }
        match (self.phase, answer) {
            (Phase::OpenRepository, _) => {
                if self.lookup_name().is_some() {
                    self.go(Phase::FindSubmodule)
                } else {
                    let text = join("Unsupported Non-UTF8 path '", self.request.path.as_str(), "'");
                    self.give_up(Failure::new(text))
                }
            },
            (Phase::FindSubmodule, _) => self.go(Phase::InitSubmodule),
            (Phase::InitSubmodule, _) => self.go(Phase::SyncSubmodule),
            (Phase::SyncSubmodule, _) => self.go(Phase::ReadSubmodule),
            (Phase::ReadSubmodule, Answer::Submodule { branch, head_id, workdir_id }) => {
                match head_id {
                    Some(head_id) => {
                        self.branch = branch;
                        self.head_id = head_id;
                        self.workdir_id = workdir_id;
                        self.go(Phase::OpenSubmodule)
                    },
                    None => self.give_up(Failure::new("no head id for submodule".to_owned())),
                }
            },
            (Phase::OpenSubmodule | Phase::ReopenSubmodule, _) => self.inspect(),
            (Phase::InitRepository, _) => self.go(Phase::ReadGitFile),
            (Phase::ReadGitFile, Answer::Text(content)) => {
                self.git_file = content;
                self.go(Phase::CloneSubmodule)
            },
            (Phase::CloneSubmodule | Phase::RestoreGitFile, _) => self.go(Phase::UpdateSubmodule),
            (Phase::LookForGitFile, Answer::Verdict(exists)) => {
                if exists {
                    self.go(Phase::UpdateSubmodule)
                } else {
                    self.go(Phase::RestoreGitFile)
                }
            },
            (Phase::UpdateSubmodule, _) => self.go(Phase::ResyncSubmodule),
            (Phase::ResyncSubmodule, _) => self.go(Phase::ReopenSubmodule),
            (Phase::ReadState, Answer::State(state)) => {
                if state == RepositoryState::Clean {
                    self.go(Phase::ReadStatuses)
                } else {
                    self.give_up(
                        Failure::new(
                            "The submodule is not in a clean state (is a rebase in progress?".to_owned(),
                        ),
                    )
                }
            },
            (Phase::ReadStatuses, Answer::Statuses(list)) => self.consider(list),
            (Phase::FindBranchRemote, _) => self.go(Phase::FetchBranch),
            (Phase::FetchBranch, _) => self.go(Phase::FindReference),
            (Phase::FindReference, _) => self.go(Phase::PeelReference),
            (Phase::PeelReference, Answer::Commit(id)) => self.aim(id),
            (Phase::RefreshWorktree, _) => self.finish(CheckoutResult::Unchanged),
            (Phase::FindCommit | Phase::RefindCommit, _) => self.guard(),
            (Phase::FindCommitRemote, _) => self.go(Phase::FetchCommit),
            (Phase::FetchCommit | Phase::FetchEverything, _) => self.go(Phase::RefindCommit),
            (Phase::ReadCommitTree, _) => self.search(0),
            (Phase::SearchCommitTree, Answer::Verdict(found)) => {
                let searched: usize = self.searched;
                if found {
                    let text = join(
                        "'",
                        self.untracked[searched].shown.as_str(),
                        "' would be overwritten by checkout",
                    );
                    self.give_up(Failure::new(text))
                } else {
                    assert(searched < self.untracked.len());
                    self.search(searched + 1)
                }
            },
            (Phase::DetachHead, _) => self.go(Phase::OpenIndex),
            (Phase::OpenIndex, _) => self.go(Phase::ReadHead),
            (Phase::ReadHead, _) => self.go(Phase::PeelHead),
            (Phase::PeelHead, _) => self.go(Phase::FillIndex),
            (Phase::FillIndex, _) => self.go(Phase::WriteIndex),
            (Phase::WriteIndex, _) => self.go(Phase::CheckoutHead),
            (Phase::CheckoutHead, _) => self.finish(CheckoutResult::Changed),
            _ => Progress::Unexpected,
        }
    }

    /// Goes on after the operation of this phase failed for good.
    fn fail(&mut self, fault: Fault) -> (progress: Progress<Failure>)
        ensures
            (final(self)@, progress@) == old(self)@.settle(old(self)@.failed(fault@)),
    {
        match self.phase {
            Phase::OpenSubmodule => self.go(Phase::InitRepository),
            Phase::CloneSubmodule if fault.class == ErrorClass::Os => {
                self.go(Phase::LookForGitFile)
            },
            Phase::UpdateSubmodule if fault.missing_object() => self.go(Phase::ResyncSubmodule),
            Phase::FindCommit => self.go(Phase::FindCommitRemote),
            Phase::FetchCommit if fault.missing_object() => self.go(Phase::FetchEverything),
            Phase::ResyncSubmodule => {
                let failure = self.failure(fault);
                self.go(Phase::Finished);
                Progress::Panic(failure)
            },
            _ => {
                let failure = self.failure(fault);
                self.give_up(failure)
            },
        }
    }

    /// Takes the result of the operation that was asked for, and decides what follows.
    pub fn step(&mut self, reply: Reply) -> (progress: Progress<Failure>)
        ensures
            (final(self)@, progress@) == old(self)@.step(reply_view(reply)),
            final(self)@.valid(),
    {
        proof {
            use_type_invariant(&*self);
        }
        if !self.phase.accepts(&reply) {
            return Progress::Unexpected;
        }
        let attempt = match self.phase.rule() {
            Some(RetryRule::Net) => retry_if_net(self.failures, reply),
            Some(RetryRule::Locked) => retry_if_locked(self.failures, reply),
            None => Attempt::Return(reply),
        };
        match attempt {
            Attempt::TryAgain(wait) => {
                self.failures = self.failures + 1;
                Progress::Retry(wait)
            },
            Attempt::Return(Ok(answer)) => self.succeed(answer),
            Attempt::Return(Err(fault)) => self.fail(fault),
        }
    }
}

} // verus!
