//! The course of a checkout, operation by operation: what is asked for, in which order and with
//! which arguments, and how it ends, given what the operations bring.
use crate::failure::{ErrorClass, ErrorCode, FaultView};
use crate::model::{
    start, ActionView, Answer, CheckoutView, Phase, Progress, ReplyView, RequestView,
};
use crate::plan::Operation;
use crate::status::{tidy, untracked_paths, FilePathView, RepositoryState, StatusEntryView};
use crate::CheckoutResult;
use vstd::prelude::*;

verus! {

/// What follows a reply, as a value.
pub type ProgressView = Progress<Seq<Seq<char>>>;

/// An operation that a checkout asks for, what it brings, and what follows.
pub struct Exchange {
    pub action: ActionView,
    pub reply: ReplyView,
    pub progress: ProgressView,
}

impl Exchange {
    /// This exchange and then the rest.
    pub open spec fn before(self, rest: Seq<Exchange>) -> Seq<Exchange> {
        seq![self] + rest
    }
}

/// An operation that brings `reply`, after which the checkout goes on.
pub open spec fn goes_on(action: ActionView, reply: ReplyView) -> Exchange {
    Exchange { action, reply, progress: Progress::Next }
}

/// An operation that succeeds and brings nothing else.
pub open spec fn done(action: ActionView) -> Exchange {
    goes_on(action, Ok(Answer::Done))
}

/// Whether a checkout goes through these exchanges, one after the other.
pub open spec fn plays(v: CheckoutView, course: Seq<Exchange>) -> bool
    decreases course.len(),
{
    course.len() == 0 || {
        &&& v.action() == course[0].action
        &&& v.step(course[0].reply).1 == course[0].progress
        &&& plays(v.step(course[0].reply).0, course.drop_first())
    }
}

/// A network that fails for the moment: any error of the network, and any of the SSH transport but
/// a failed authentication.
pub open spec fn is_net_trouble(fault: FaultView) -> bool {
    ||| fault.class == ErrorClass::Net
    ||| fault.class == ErrorClass::Ssh && fault.code != ErrorCode::Auth
}

/// Passing trouble of an operation over the network: it is met ten times at most.
pub open spec fn are_net_troubles(faults: Seq<FaultView>) -> bool {
    &&& faults.len() <= 10
    &&& forall|i: int| 0 <= i < faults.len() ==> is_net_trouble(#[trigger] faults[i])
}

/// Passing trouble of an operation that takes a lock: it is met three times at most.
pub open spec fn are_lock_troubles(faults: Seq<FaultView>) -> bool {
    &&& faults.len() <= 3
    &&& forall|i: int| 0 <= i < faults.len() ==> (#[trigger] faults[i]).code == ErrorCode::Locked
}

/// An object that is not in the object database.
pub open spec fn is_missing(fault: FaultView) -> bool {
    fault.class == ErrorClass::Odb && fault.code == ErrorCode::NotFound
}

/// How a submodule is made that could not be opened.
pub struct Making {
    /// Why it could not be opened, whatever that is.
    pub fault: FaultView,
    /// What its `.git` file holds.
    pub git_file: Seq<char>,
    /// Where the operating system broke off the clone: how, and whether the `.git` file is still
    /// there.
    pub broken_clone: Option<(FaultView, bool)>,
    pub update_troubles: Seq<FaultView>,
    /// Where the update missed a commit.
    pub missing: Option<FaultView>,
    pub resync_locks: Seq<FaultView>,
}

impl Making {
    pub open spec fn can_be(self) -> bool {
        &&& self.broken_clone matches Some((fault, _)) ==> fault.class == ErrorClass::Os
        &&& are_net_troubles(self.update_troubles)
        &&& self.missing matches Some(fault) ==> is_missing(fault)
        &&& are_lock_troubles(self.resync_locks)
    }
}

/// How a commit is fetched that is not in the local clone.
pub struct Fetching {
    /// Why it was not found, whatever that is.
    pub fault: FaultView,
    pub troubles: Seq<FaultView>,
    /// Where the remote does not give out single commits: the refusal, and passing trouble of the
    /// fetch of everything.
    pub refusal: Option<(FaultView, Seq<FaultView>)>,
}

impl Fetching {
    pub open spec fn can_be(self) -> bool {
        &&& are_net_troubles(self.troubles)
        &&& self.refusal matches Some((fault, troubles)) ==> is_missing(fault) && are_net_troubles(
            troubles,
        )
    }
}

/// What the operations of a checkout bring that does not fail.
pub struct Story {
    pub init_locks: Seq<FaultView>,
    pub sync_locks: Seq<FaultView>,
    pub branch: Option<Seq<char>>,
    pub head_id: Seq<char>,
    pub workdir_id: Option<Seq<char>>,
    /// Where the submodule cannot be opened.
    pub making: Option<Making>,
    /// The files that are not as HEAD has them.
    pub list: Seq<StatusEntryView>,
    pub branch_troubles: Seq<FaultView>,
    /// The commit at the tip of the branch.
    pub tip: Seq<char>,
    /// Where the target is not in the local clone.
    pub fetching: Option<Fetching>,
    /// Where an untracked file is in the target: the first such.
    pub found: Option<nat>,
}

impl Story {
    pub open spec fn can_be(self) -> bool {
        &&& are_lock_troubles(self.init_locks)
        &&& are_lock_troubles(self.sync_locks)
        &&& self.making matches Some(making) ==> making.can_be()
        &&& tidy(self.list)
        &&& are_net_troubles(self.branch_troubles)
        &&& self.fetching matches Some(fetching) ==> fetching.can_be()
    }

    /// The branch that a bump goes to, as the remote calls it.
    pub open spec fn remote_branch(self) -> Seq<char> {
        match self.branch {
            Some(branch) => branch,
            None => "HEAD"@,
        }
    }

    /// The commit that an operation goes to.
    pub open spec fn target(self, operation: Operation) -> Seq<char> {
        match operation {
            Operation::Checkout => self.head_id,
            Operation::Bump => self.tip,
        }
    }
}

/// Attempts at an operation that meet passing trouble, each followed by another a second later.
pub open spec fn attempts(
    action: ActionView,
    troubles: Seq<FaultView>,
    rest: Seq<Exchange>,
) -> Seq<Exchange>
    decreases troubles.len(),
{
    if troubles.len() == 0 {
        rest
    } else {
        Exchange {
            action,
            reply: Err(troubles[0]),
            progress: Progress::Retry(Some(1000)),
        }.before(attempts(action, troubles.drop_first(), rest))
    }
}

/// The submodule is found by its name, or else by its path, registered, and looked up.
pub open spec fn opening(request: RequestView, story: Story, rest: Seq<Exchange>) -> Seq<Exchange> {
    let name = if request.submodule_name is Some {
        request.submodule_name->0
    } else {
        request.utf8_path->0
    };
    let init = ActionView::InitSubmodule { overwrite: false };
    done(ActionView::OpenRepository).before(
        done(ActionView::FindSubmodule(name)).before(
            attempts(
                init,
                story.init_locks,
                done(init).before(
                    attempts(
                        ActionView::SyncSubmodule,
                        story.sync_locks,
                        done(ActionView::SyncSubmodule).before(
                            goes_on(
                                ActionView::ReadSubmodule,
                                Ok(
                                    Answer::Submodule {
                                        branch: story.branch,
                                        head_id: Some(story.head_id),
                                        workdir_id: story.workdir_id,
                                    },
                                ),
                            ).before(rest),
                        ),
                    ),
                ),
            ),
        ),
    )
}

/// The submodule is cloned; where that breaks off, its `.git` file is put back if it is gone.
pub open spec fn cloning(making: Making, rest: Seq<Exchange>) -> Seq<Exchange> {
    let clone = ActionView::CloneSubmodule { allow_fetch: false };
    match making.broken_clone {
        None => done(clone).before(rest),
        Some((fault, exists)) => goes_on(clone, Err(fault)).before(
            goes_on(ActionView::LookForGitFile, Ok(Answer::Verdict(exists))).before(
                if exists {
                    rest
                } else {
                    done(ActionView::WriteGitFile(making.git_file)).before(rest)
                },
            ),
        ),
    }
}

/// The submodule is brought up to date, even where a commit is missing.
pub open spec fn updating(making: Making, rest: Seq<Exchange>) -> Seq<Exchange> {
    let update = ActionView::UpdateSubmodule { init: true, allow_fetch: false };
    let updated: ReplyView = match making.missing {
        None => Ok(Answer::Done),
        Some(fault) => Err(fault),
    };
    attempts(
        update,
        making.update_troubles,
        goes_on(update, updated).before(
            attempts(
                ActionView::SyncSubmodule,
                making.resync_locks,
                done(ActionView::SyncSubmodule).before(
                    done(ActionView::OpenSubmodule).before(rest),
                ),
            ),
        ),
    )
}

/// The submodule is opened, or else it is made.
pub open spec fn entering(story: Story, rest: Seq<Exchange>) -> Seq<Exchange> {
    match story.making {
        None => done(ActionView::OpenSubmodule).before(rest),
        Some(making) => goes_on(ActionView::OpenSubmodule, Err(making.fault)).before(
            done(ActionView::InitRepository { use_gitlink: true }).before(
                goes_on(ActionView::ReadGitFile, Ok(Answer::Text(making.git_file))).before(
                    cloning(making, updating(making, rest)),
                ),
            ),
        ),
    }
}

/// Without force, the submodule is found clean and without changes.
pub open spec fn inspecting(
    request: RequestView,
    story: Story,
    rest: Seq<Exchange>,
) -> Seq<Exchange> {
    if request.force_checkout {
        rest
    } else {
        goes_on(ActionView::ReadState, Ok(Answer::State(RepositoryState::Clean))).before(
            goes_on(
                ActionView::ReadStatuses {
                    include_untracked: true,
                    recurse_untracked_dirs: true,
                    ignore_untracked_below: true,
                },
                Ok(Answer::Statuses(story.list)),
            ).before(rest),
        )
    }
}

/// For a bump, the branch is fetched and its tip looked up.
pub open spec fn aiming(request: RequestView, story: Story, rest: Seq<Exchange>) -> Seq<Exchange> {
    match request.operation {
        Operation::Checkout => rest,
        Operation::Bump => done(ActionView::FindRemote("origin"@)).before(
            attempts(
                ActionView::Fetch(Some(story.remote_branch())),
                story.branch_troubles,
                done(ActionView::Fetch(Some(story.remote_branch()))).before(
                    done(
                        ActionView::FindReference("refs/remotes/origin/"@ + story.remote_branch()),
                    ).before(
                        goes_on(
                            ActionView::PeelReference,
                            Ok(Answer::Commit(story.tip)),
                        ).before(rest),
                    ),
                ),
            ),
        ),
    }
}

/// The target is found, or else it is fetched: by its id, or with everything else.
pub open spec fn finding(
    target: Seq<char>,
    story: Story,
    rest: Seq<Exchange>,
) -> Seq<Exchange> {
    match story.fetching {
        None => done(ActionView::FindCommit(target)).before(rest),
        Some(fetching) => goes_on(ActionView::FindCommit(target), Err(fetching.fault)).before(
            done(ActionView::FindRemote("origin"@)).before(
                fetching_it(
                    target,
                    fetching,
                    done(ActionView::FindCommit(target)).before(rest),
                ),
            ),
        ),
    }
}

/// The target is fetched by its id, or with everything else.
pub open spec fn fetching_it(
    target: Seq<char>,
    fetching: Fetching,
    rest: Seq<Exchange>,
) -> Seq<Exchange> {
    let fetch = ActionView::Fetch(Some("+"@ + target + ":"@ + target));
    attempts(
        fetch,
        fetching.troubles,
        match fetching.refusal {
            None => done(fetch).before(rest),
            Some((fault, troubles)) => goes_on(fetch, Err(fault)).before(
                attempts(
                    ActionView::Fetch(None),
                    troubles,
                    done(ActionView::Fetch(None)).before(rest),
                ),
            ),
        },
    )
}

/// The target is searched for the untracked files, until one of them is found there.
pub open spec fn searching(
    files: Seq<FilePathView>,
    found: Option<nat>,
    rest: Seq<Exchange>,
) -> Seq<Exchange>
    decreases files.len(),
{
    if files.len() == 0 {
        rest
    } else if found == Some(0nat) {
        seq![
            Exchange {
                action: ActionView::SearchCommitTree(files[0].bytes),
                reply: Ok(Answer::Verdict(true)),
                progress: Progress::Finished(
                    Err(seq!["'"@ + files[0].shown + "' would be overwritten by checkout"@]),
                ),
            },
        ]
    } else {
        goes_on(
            ActionView::SearchCommitTree(files[0].bytes),
            Ok(Answer::Verdict(false)),
        ).before(
            searching(
                files.drop_first(),
                match found {
                    Some(k) => Some((k - 1) as nat),
                    None => None,
                },
                rest,
            ),
        )
    }
}

/// Without force, the target is found to have none of the untracked files.
pub open spec fn guarding(
    request: RequestView,
    story: Story,
    rest: Seq<Exchange>,
) -> Seq<Exchange> {
    if request.force_checkout {
        rest
    } else {
        done(ActionView::ReadCommitTree).before(
            searching(untracked_paths(story.list), story.found, rest),
        )
    }
}

/// The worktree is made as HEAD has it, which ends the checkout.
pub open spec fn ending(result: CheckoutResult) -> Seq<Exchange> {
    seq![
        Exchange {
            action: ActionView::CheckoutHead { force: true },
            reply: Ok(Answer::Done),
            progress: Progress::Finished(Ok(result)),
        },
    ]
}

/// HEAD is set to the target, then the index and the worktree are made as HEAD has them.
pub open spec fn moving(target: Seq<char>) -> Seq<Exchange> {
    done(ActionView::DetachHead(target)).before(
        done(ActionView::OpenIndex).before(
            done(ActionView::ReadHead).before(
                done(ActionView::PeelHead).before(
                    done(ActionView::FillIndex).before(
                        done(ActionView::WriteIndex).before(ending(CheckoutResult::Changed)),
                    ),
                ),
            ),
        ),
    )
}

/// The submodule goes to the target, or stays where it is there.
pub open spec fn arriving(request: RequestView, story: Story) -> Seq<Exchange> {
    let target = story.target(request.operation);
    if story.workdir_id == Some(target) {
        ending(CheckoutResult::Unchanged)
    } else {
        finding(target, story, guarding(request, story, moving(target)))
    }
}

/// The whole course of a checkout.
pub open spec fn course(request: RequestView, story: Story) -> Seq<Exchange> {
    opening(
        request,
        story,
        entering(
            story,
            inspecting(request, story, aiming(request, story, arriving(request, story))),
        ),
    )
}

/// What it means to go through one exchange and then the rest.
broadcast proof fn lemma_before(v: CheckoutView, e: Exchange, rest: Seq<Exchange>)
    ensures
        #[trigger] plays(v, e.before(rest)) <==> {
            &&& v.action() == e.action
            &&& v.step(e.reply).1 == e.progress
            &&& plays(v.step(e.reply).0, rest)
        },
{
    let whole = e.before(rest);
    assert(whole[0] == e);
    assert(whole.drop_first() =~= rest);
}

/// Trouble that passes changes nothing but the number of attempts.
proof fn lemma_attempts(v: CheckoutView, troubles: Seq<FaultView>, rest: Seq<Exchange>)
    requires
        v.phase.fits(Err(troubles[0])) || troubles.len() == 0,
        match v.phase {
            Phase::InitSubmodule | Phase::SyncSubmodule | Phase::ResyncSubmodule => v.failures
                + troubles.len() <= 3 && forall|i: int|
                0 <= i < troubles.len() ==> (#[trigger] troubles[i]).code == ErrorCode::Locked,
            Phase::UpdateSubmodule
            | Phase::FetchBranch
            | Phase::FetchCommit
            | Phase::FetchEverything => v.failures + troubles.len() <= 10 && forall|i: int|
                0 <= i < troubles.len() ==> is_net_trouble(#[trigger] troubles[i]),
            _ => false,
        },
        plays(CheckoutView { failures: v.failures + troubles.len(), ..v }, rest),
    ensures
        plays(v, attempts(v.action(), troubles, rest)),
    decreases troubles.len(),
{
    broadcast use lemma_before;

    if troubles.len() == 0 {
        assert(CheckoutView { failures: v.failures + troubles.len(), ..v } == v);
    } else {
        let next = CheckoutView { failures: v.failures + 1, ..v };
        let others = troubles.drop_first();
        assert(v.step(Err(troubles[0])) == (next, ProgressView::Retry(Some(1000))));
        assert(CheckoutView { failures: next.failures + others.len(), ..next }
            == CheckoutView { failures: v.failures + troubles.len(), ..v });
        assert forall|i: int| 0 <= i < others.len() implies others[i] == #[trigger] troubles[i
            + 1] by {}
        lemma_attempts(next, others, rest);
    }
}

proof fn lemma_ending(v: CheckoutView, result: CheckoutResult)
    requires
        v.phase == match result {
            CheckoutResult::Changed => Phase::CheckoutHead,
            CheckoutResult::Unchanged => Phase::RefreshWorktree,
        },
    ensures
        plays(v, ending(result)),
{
    reveal_with_fuel(plays, 2);
}

proof fn lemma_moving(v: CheckoutView)
    requires
        v.phase == Phase::DetachHead,
    ensures
        plays(v, moving(v.target_id)),
{
    broadcast use lemma_before;

    lemma_ending(v.at(Phase::CheckoutHead), CheckoutResult::Changed);
}

proof fn lemma_searching(
    v: CheckoutView,
    files: Seq<FilePathView>,
    found: Option<nat>,
    rest: Seq<Exchange>,
)
    requires
        v.searched <= v.untracked.len(),
        v.untracked.skip(v.searched as int) == files,
        v.phase == if files.len() > 0 {
            Phase::SearchCommitTree
        } else {
            Phase::DetachHead
        },
        v.failures == 0,
        plays(
            CheckoutView { phase: Phase::DetachHead, searched: v.untracked.len(), ..v },
            rest,
        ),
    ensures
        plays(v, searching(files, found, rest)),
    decreases files.len(),
{
    broadcast use lemma_before;

    if files.len() == 0 {
        assert(v == CheckoutView { phase: Phase::DetachHead, searched: v.untracked.len(), ..v });
    } else {
        assert(files[0] == v.untracked[v.searched as int]);
        if found == Some(0nat) {
            reveal_with_fuel(plays, 2);
        } else {
            let next = v.step(Ok(Answer::Verdict(false))).0;
            assert(next.untracked.skip(next.searched as int) =~= files.drop_first());
            assert(CheckoutView {
                phase: Phase::DetachHead,
                searched: next.untracked.len(),
                ..next
            } == CheckoutView { phase: Phase::DetachHead, searched: v.untracked.len(), ..v });
            let later: Option<nat> = match found {
                Some(k) => Some((k - 1) as nat),
                None => None,
            };
            lemma_searching(next, files.drop_first(), later, rest);
        }
    }
}

/// Whether a checkout knows what the story has brought so far.
spec fn knows(v: CheckoutView, request: RequestView, story: Story) -> bool {
    &&& v.request == request
    &&& v.branch == story.branch
    &&& v.head_id == story.head_id
    &&& v.workdir_id == story.workdir_id
}

proof fn lemma_guarding(v: CheckoutView, request: RequestView, story: Story)
    requires
        v.phase == Phase::FindCommit || v.phase == Phase::RefindCommit,
        v.failures == 0,
        knows(v, request, story),
        !request.force_checkout ==> v.untracked == untracked_paths(story.list),
    ensures
        plays(
            v.step(Ok(Answer::Done)).0,
            guarding(request, story, moving(v.target_id)),
        ),
{
    broadcast use lemma_before;

    let next = v.step(Ok(Answer::Done)).0;
    if request.force_checkout {
        lemma_moving(next);
    } else {
        let there = next.step(Ok(Answer::Done)).0;
        assert(there.untracked.skip(0) =~= there.untracked);
        lemma_moving(
            CheckoutView { phase: Phase::DetachHead, searched: there.untracked.len(), ..there },
        );
        lemma_searching(there, untracked_paths(story.list), story.found, moving(v.target_id));
    }
}

proof fn lemma_fetching(v: CheckoutView, fetching: Fetching, rest: Seq<Exchange>)
    requires
        v.phase == Phase::FetchCommit,
        v.failures == 0,
        fetching.can_be(),
        plays(v.at(Phase::RefindCommit), rest),
    ensures
        plays(v, fetching_it(v.target_id, fetching, rest)),
{
    broadcast use lemma_before;

    let tried = CheckoutView { failures: fetching.troubles.len(), ..v };
    if let Some((fault, troubles)) = fetching.refusal {
        let all = v.at(Phase::FetchEverything);
        assert(tried.step(Err(fault)).0 == all);
        let last = CheckoutView { failures: troubles.len(), ..all };
        assert(last.step(Ok(Answer::Done)).0 == v.at(Phase::RefindCommit));
        lemma_attempts(all, troubles, done(ActionView::Fetch(None)).before(rest));
    } else {
        assert(tried.step(Ok(Answer::Done)).0 == v.at(Phase::RefindCommit));
    }
    let fetch = ActionView::Fetch(Some("+"@ + v.target_id + ":"@ + v.target_id));
    let more = match fetching.refusal {
        None => done(fetch).before(rest),
        Some((fault, troubles)) => goes_on(fetch, Err(fault)).before(
            attempts(
                ActionView::Fetch(None),
                troubles,
                done(ActionView::Fetch(None)).before(rest),
            ),
        ),
    };
    assert(plays(tried, more));
    lemma_attempts(v, fetching.troubles, more);
}

#[verifier::rlimit(50)]
proof fn lemma_arriving(v: CheckoutView, request: RequestView, story: Story)
    requires
        v.target_id == story.target(request.operation),
        v.phase == if story.workdir_id == Some(v.target_id) {
            Phase::RefreshWorktree
        } else {
            Phase::FindCommit
        },
        v.failures == 0,
        knows(v, request, story),
        !request.force_checkout ==> v.untracked == untracked_paths(story.list),
        story.can_be(),
    ensures
        plays(v, arriving(request, story)),
{
    broadcast use lemma_before;

    let rest = guarding(request, story, moving(v.target_id));
    if story.workdir_id == Some(v.target_id) {
        lemma_ending(v, CheckoutResult::Unchanged);
    } else if let Some(fetching) = story.fetching {
        let found = v.at(Phase::RefindCommit);
        lemma_guarding(found, request, story);
        let more = done(ActionView::FindCommit(v.target_id)).before(rest);
        assert(plays(found, more));
        lemma_fetching(v.at(Phase::FetchCommit), fetching, more);
    } else {
        lemma_guarding(v, request, story);
    }
}

#[verifier::rlimit(50)]
proof fn lemma_aiming(v: CheckoutView, request: RequestView, story: Story)
    requires
        v.failures == 0,
        knows(v, request, story),
        !request.force_checkout ==> v.untracked == untracked_paths(story.list),
        story.can_be(),
    ensures
        plays(v.choose_target(), aiming(request, story, arriving(request, story))),
{
    broadcast use lemma_before;

    let rest = arriving(request, story);
    if request.operation == Operation::Checkout {
        lemma_arriving(v.choose_target(), request, story);
    } else {
        let fetch = ActionView::Fetch(Some(story.remote_branch()));
        let fetching = v.at(Phase::FetchBranch);
        let tried = CheckoutView { failures: story.branch_troubles.len(), ..fetching };
        let peeling = v.at(Phase::PeelReference);
        let aimed = peeling.step(Ok(Answer::Commit(story.tip))).0;
        lemma_arriving(aimed, request, story);
        assert(tried.step(Ok(Answer::Done)).0 == v.at(Phase::FindReference));
        let more = done(fetch).before(
            done(
                ActionView::FindReference("refs/remotes/origin/"@ + story.remote_branch()),
            ).before(
                goes_on(ActionView::PeelReference, Ok(Answer::Commit(story.tip))).before(rest),
            ),
        );
        assert(plays(tried, more));
        lemma_attempts(fetching, story.branch_troubles, more);
    }
}

proof fn lemma_inspecting(v: CheckoutView, request: RequestView, story: Story)
    requires
        v.phase == Phase::OpenSubmodule || v.phase == Phase::ReopenSubmodule,
        v.failures == 0,
        knows(v, request, story),
        story.can_be(),
    ensures
        plays(
            v.step(Ok(Answer::Done)).0,
            inspecting(request, story, aiming(request, story, arriving(request, story))),
        ),
{
    broadcast use lemma_before;

    if request.force_checkout {
        lemma_aiming(v, request, story);
    } else {
        let listing = v.at(Phase::ReadStatuses);
        lemma_aiming(
            CheckoutView { untracked: untracked_paths(story.list), ..listing },
            request,
            story,
        );
    }
}

#[verifier::rlimit(50)]
proof fn lemma_updating(v: CheckoutView, making: Making, rest: Seq<Exchange>)
    requires
        v.phase == Phase::UpdateSubmodule,
        v.failures == 0,
        making.can_be(),
        plays(v.at(Phase::ReopenSubmodule).step(Ok(Answer::Done)).0, rest),
    ensures
        plays(v, updating(making, rest)),
{
    broadcast use lemma_before;

    let update = ActionView::UpdateSubmodule { init: true, allow_fetch: false };
    let updated: ReplyView = match making.missing {
        None => Ok(Answer::Done),
        Some(fault) => Err(fault),
    };
    let sync = v.at(Phase::ResyncSubmodule);
    let synced = CheckoutView { failures: making.resync_locks.len(), ..sync };
    assert(synced.step(Ok(Answer::Done)).0 == v.at(Phase::ReopenSubmodule));
    let last = done(ActionView::SyncSubmodule).before(
        done(ActionView::OpenSubmodule).before(rest),
    );
    assert(plays(synced, last));
    lemma_attempts(sync, making.resync_locks, last);
    let tried = CheckoutView { failures: making.update_troubles.len(), ..v };
    assert(tried.step(updated).0 == sync);
    let more = goes_on(update, updated).before(
        attempts(ActionView::SyncSubmodule, making.resync_locks, last),
    );
    assert(plays(tried, more));
    lemma_attempts(v, making.update_troubles, more);
}

proof fn lemma_cloning(v: CheckoutView, making: Making, rest: Seq<Exchange>)
    requires
        v.phase == Phase::CloneSubmodule,
        v.failures == 0,
        v.git_file == making.git_file,
        making.can_be(),
        plays(v.at(Phase::UpdateSubmodule), rest),
    ensures
        plays(v, cloning(making, rest)),
{
    broadcast use lemma_before;

    if let Some((fault, exists)) = making.broken_clone {
        assert(v.step(Err(fault)).0 == v.at(Phase::LookForGitFile));
    }
}

proof fn lemma_making(v: CheckoutView, making: Making, rest: Seq<Exchange>)
    requires
        v.phase == Phase::OpenSubmodule,
        v.failures == 0,
        plays(
            CheckoutView { git_file: making.git_file, ..v }.at(Phase::CloneSubmodule),
            rest,
        ),
    ensures
        plays(
            v,
            goes_on(ActionView::OpenSubmodule, Err(making.fault)).before(
                done(ActionView::InitRepository { use_gitlink: true }).before(
                    goes_on(ActionView::ReadGitFile, Ok(Answer::Text(making.git_file))).before(
                        rest,
                    ),
                ),
            ),
        ),
{
    broadcast use lemma_before;

}

proof fn lemma_entering(v: CheckoutView, request: RequestView, story: Story)
    requires
        v.phase == Phase::OpenSubmodule,
        v.failures == 0,
        knows(v, request, story),
        story.can_be(),
    ensures
        plays(
            v,
            entering(
                story,
                inspecting(request, story, aiming(request, story, arriving(request, story))),
            ),
        ),
{
    let rest = inspecting(request, story, aiming(request, story, arriving(request, story)));
    if let Some(making) = story.making {
        let made = CheckoutView { git_file: making.git_file, ..v }.at(Phase::CloneSubmodule);
        let updated = made.at(Phase::UpdateSubmodule);
        lemma_inspecting(updated.at(Phase::ReopenSubmodule), request, story);
        lemma_updating(updated, making, rest);
        lemma_cloning(made, making, updating(making, rest));
        lemma_making(v, making, cloning(making, updating(making, rest)));
    } else {
        lemma_inspecting(v, request, story);
        lemma_before(v, done(ActionView::OpenSubmodule), rest);
    }
}

/// A checkout of a submodule that has a name, or a path, to be found by goes through its whole
/// course, whatever the operations bring that does not fail for good.
///
/// It goes to the recorded commit, or for a bump to the tip of the branch that the submodule has,
/// or of HEAD where it has none. A submodule that cannot be opened, for whatever reason, is made. A
/// target that is not there, for whatever reason, is fetched. It ends well, moved or not, unless an
/// untracked file is in the target.
#[verifier::rlimit(50)]
pub proof fn law_course_of_a_checkout(request: RequestView, story: Story)
    requires
        request.submodule_name is Some || request.utf8_path is Some,
        story.can_be(),
    ensures
        plays(start(request), course(request, story)),
{
    broadcast use lemma_before;

    let begun = start(request);
    let opened = CheckoutView {
        branch: story.branch,
        head_id: story.head_id,
        workdir_id: story.workdir_id,
        ..begun
    }.at(Phase::OpenSubmodule);
    let rest = entering(
        story,
        inspecting(request, story, aiming(request, story, arriving(request, story))),
    );
    lemma_entering(opened, request, story);
    let reading = goes_on(
        ActionView::ReadSubmodule,
        Ok(
            Answer::Submodule {
                branch: story.branch,
                head_id: Some(story.head_id),
                workdir_id: story.workdir_id,
            },
        ),
    ).before(rest);
    let sync = begun.at(Phase::SyncSubmodule);
    let synced = CheckoutView { failures: story.sync_locks.len(), ..sync };
    assert(synced.step(Ok(Answer::Done)).0 == begun.at(Phase::ReadSubmodule));
    let syncing = done(ActionView::SyncSubmodule).before(reading);
    assert(plays(synced, syncing));
    lemma_attempts(sync, story.sync_locks, syncing);
    let init = ActionView::InitSubmodule { overwrite: false };
    let initial = begun.at(Phase::InitSubmodule);
    let ready = CheckoutView { failures: story.init_locks.len(), ..initial };
    assert(ready.step(Ok(Answer::Done)).0 == sync);
    let registering = done(init).before(
        attempts(ActionView::SyncSubmodule, story.sync_locks, syncing),
    );
    assert(plays(ready, registering));
    lemma_attempts(initial, story.init_locks, registering);
}

} // verus!
