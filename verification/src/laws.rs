//! What holds of every checkout, whatever the operations bring.
//!
//! To move HEAD is to ask for [`ActionView::DetachHead`], and to overwrite files is to ask for
//! [`ActionView::CheckoutHead`]. What git does of its own within [`ActionView::UpdateSubmodule`],
//! in a submodule that could not be opened and was just set up, is not counted.
use crate::failure::{ErrorClass, ErrorCode, FaultView};
use crate::model::{
    start, ActionView, Answer, CheckoutView, Phase, Progress, ReplyView, RequestView,
};
use crate::plan::Operation;
use crate::status::{
    changes, tidy, untracked_paths, Change, FilePathView, RepositoryState, StatusEntryView,
};
use crate::text::decimal;
use crate::CheckoutResult;
use vstd::prelude::*;

verus! {

/// The state of a checkout after it was given a reply.
#[verifier::opaque]
pub open spec fn after(v: CheckoutView, reply: ReplyView) -> CheckoutView {
    v.step(reply).0
}

/// The state of a checkout after it was given these replies.
pub open spec fn run(request: RequestView, replies: Seq<ReplyView>) -> CheckoutView
    decreases replies.len(),
{
    if replies.len() == 0 {
        start(request)
    } else {
        after(run(request, replies.drop_last()), replies.last())
    }
}

/// Whether the checkout asked for an operation at some time and got this reply.
pub open spec fn asked(
    request: RequestView,
    replies: Seq<ReplyView>,
    action: ActionView,
    reply: ReplyView,
) -> bool {
    exists|i: int|
        0 <= i < replies.len() && run(request, #[trigger] replies.take(i)).action() == action
            && replies[i] == reply
}

/// Whether the checkout asked for an operation at some time and got an error.
pub open spec fn asked_in_vain(
    request: RequestView,
    replies: Seq<ReplyView>,
    action: ActionView,
) -> bool {
    exists|fault: FaultView| #[trigger] asked(request, replies, action, Err(fault))
}

/// The operation that lists the changed files of the submodule, with all the untracked ones.
pub open spec fn list_files() -> ActionView {
    ActionView::ReadStatuses {
        include_untracked: true,
        recurse_untracked_dirs: true,
        ignore_untracked_below: true,
    }
}

/// Whether an operation reaches out to a remote.
pub open spec fn is_remote(action: ActionView) -> bool {
    action is CloneSubmodule || action is UpdateSubmodule || action is Fetch
}

/// Whether an operation moves HEAD or overwrites files of the submodule.
pub open spec fn is_destructive(action: ActionView) -> bool {
    action is DetachHead || action is CheckoutHead
}

/// How many operations come before a phase at most, each retry counted and the search for
/// untracked files left out.
pub open spec fn offset(phase: Phase) -> nat {
    match phase {
        Phase::OpenRepository => 0,
        Phase::FindSubmodule => 1,
        Phase::InitSubmodule => 2,
        Phase::SyncSubmodule => 6,
        Phase::ReadSubmodule => 10,
        Phase::OpenSubmodule => 11,
        Phase::InitRepository => 12,
        Phase::ReadGitFile => 13,
        Phase::CloneSubmodule => 14,
        Phase::LookForGitFile => 15,
        Phase::RestoreGitFile => 16,
        Phase::UpdateSubmodule => 17,
        Phase::ResyncSubmodule => 28,
        Phase::ReopenSubmodule => 32,
        Phase::ReadState => 33,
        Phase::ReadStatuses => 34,
        Phase::FindBranchRemote => 35,
        Phase::FetchBranch => 36,
        Phase::FindReference => 47,
        Phase::PeelReference => 48,
        Phase::RefreshWorktree => 49,
        Phase::FindCommit => 50,
        Phase::FindCommitRemote => 51,
        Phase::FetchCommit => 52,
        Phase::FetchEverything => 63,
        Phase::RefindCommit => 74,
        Phase::ReadCommitTree => 75,
        Phase::SearchCommitTree => 76,
        Phase::DetachHead => 76,
        Phase::OpenIndex => 77,
        Phase::ReadHead => 78,
        Phase::PeelHead => 79,
        Phase::FillIndex => 80,
        Phase::WriteIndex => 81,
        Phase::CheckoutHead => 82,
        Phase::Finished => 83,
    }
}

/// Whether a phase comes after the search for untracked files.
pub open spec fn past_search(phase: Phase) -> bool {
    offset(phase) >= 76 && phase != Phase::SearchCommitTree
}

/// How many operations a checkout may have asked for by now.
pub open spec fn effort(v: CheckoutView) -> nat {
    offset(v.phase) + v.failures + if past_search(v.phase) {
        v.untracked.len()
    } else if v.phase == Phase::SearchCommitTree {
        v.searched
    } else {
        0
    }
}

/// Whether every reply fits the operation that it was given for.
pub open spec fn all_fit(request: RequestView, replies: Seq<ReplyView>) -> bool {
    forall|i: int|
        0 <= i < replies.len() ==> run(request, #[trigger] replies.take(i)).phase.fits(replies[i])
}

proof fn lemma_all_fit_front(request: RequestView, replies: Seq<ReplyView>)
    requires
        replies.len() > 0,
        all_fit(request, replies),
    ensures
        all_fit(request, replies.drop_last()),
{
    let front = replies.drop_last();
    assert forall|i: int| 0 <= i < front.len() implies run(
        request,
        #[trigger] front.take(i),
    ).phase.fits(front[i]) by {
        assert(front.take(i) =~= replies.take(i));
    }
}

/// Whether a phase comes after the worktree was found fit to be checked out, and before the end.
spec fn past_statuses(phase: Phase) -> bool {
    offset(Phase::ReadStatuses) < offset(phase) < offset(Phase::Finished)
}

/// Whether the target is known in a phase before the end.
spec fn past_aim(phase: Phase) -> bool {
    offset(Phase::RefreshWorktree) <= offset(phase) < offset(Phase::Finished)
}

/// What holds of every state that a checkout can reach.
spec fn consistent(request: RequestView, v: CheckoutView) -> bool {
    &&& v.valid()
    &&& v.request == request
    &&& offset(Phase::FindSubmodule) <= offset(v.phase) < offset(Phase::Finished)
        ==> request.lookup_name() is Some
    &&& offset(v.phase) <= offset(Phase::ReadStatuses) ==> v.untracked.len() == 0
    &&& request.force_checkout ==> v.phase != Phase::ReadState && v.phase != Phase::ReadStatuses
        && v.phase != Phase::ReadCommitTree && v.phase != Phase::SearchCommitTree
    &&& request.operation == Operation::Checkout ==> !(offset(Phase::FindBranchRemote) <= offset(
        v.phase,
    ) <= offset(Phase::PeelReference))
    &&& request.operation == Operation::Checkout && past_aim(v.phase) ==> v.target_id == v.head_id
    &&& v.phase == Phase::RefreshWorktree ==> v.workdir_id == Some(v.target_id)
    &&& offset(Phase::FindCommit) <= offset(v.phase) < offset(Phase::Finished) ==> v.workdir_id
        != Some(v.target_id)
}

/// What is known of the submodule was read.
spec fn knows_submodule(
    request: RequestView,
    replies: Seq<ReplyView>,
    v: CheckoutView,
) -> bool {
    offset(Phase::OpenSubmodule) <= offset(v.phase) < offset(Phase::Finished) ==> asked(
        request,
        replies,
        ActionView::ReadSubmodule,
        Ok(
            Answer::Submodule {
                branch: v.branch,
                head_id: Some(v.head_id),
                workdir_id: v.workdir_id,
            },
        ),
    )
}

/// The files of the submodule were found to have no changes, and `untracked` to be the untracked
/// ones.
pub open spec fn found_tidy(
    request: RequestView,
    replies: Seq<ReplyView>,
    untracked: Seq<FilePathView>,
) -> bool {
    exists|list: Seq<StatusEntryView>| #[trigger]
        asked(request, replies, list_files(), Ok(Answer::Statuses(list))) && tidy(list)
            && untracked == untracked_paths(list)
}

/// What was made sure of before anything is overwritten.
spec fn inspected(request: RequestView, replies: Seq<ReplyView>, v: CheckoutView) -> bool {
    &&& !request.force_checkout && (v.phase == Phase::ReadStatuses || past_statuses(v.phase))
        ==> asked(
        request,
        replies,
        ActionView::ReadState,
        Ok(Answer::State(RepositoryState::Clean)),
    )
    &&& !request.force_checkout && past_statuses(v.phase) ==> found_tidy(
        request,
        replies,
        v.untracked,
    )
}

/// The tree of the target was searched for this file, which is not there.
pub open spec fn found_absent(
    request: RequestView,
    replies: Seq<ReplyView>,
    file: FilePathView,
) -> bool {
    asked(request, replies, ActionView::SearchCommitTree(file.bytes), Ok(Answer::Verdict(false)))
}

/// The untracked files that were dealt with are not in the target.
spec fn searched(request: RequestView, replies: Seq<ReplyView>, v: CheckoutView) -> bool {
    let done = if v.phase == Phase::SearchCommitTree {
        v.searched
    } else if past_search(v.phase) && v.phase != Phase::Finished {
        v.untracked.len()
    } else {
        0
    };
    !request.force_checkout ==> forall|k: int|
        0 <= k < done ==> found_absent(request, replies, #[trigger] v.untracked[k])
}

/// The branch to bump to was fetched before its reference is looked for.
spec fn fetched(request: RequestView, replies: Seq<ReplyView>, v: CheckoutView) -> bool {
    request.operation == Operation::Bump && (v.phase == Phase::FindReference || v.phase
        == Phase::PeelReference || past_aim(v.phase)) ==> asked(
        request,
        replies,
        ActionView::Fetch(Some(v.branch_name())),
        Ok(Answer::Done),
    )
}

/// The reference of the branch to bump to was found before its commit is looked for.
spec fn referenced(request: RequestView, replies: Seq<ReplyView>, v: CheckoutView) -> bool {
    request.operation == Operation::Bump && (v.phase == Phase::PeelReference || past_aim(v.phase))
        ==> asked(request, replies, ActionView::FindReference(v.reference()), Ok(Answer::Done))
}

/// The target of a bump is the commit that the reference led to.
spec fn peeled(request: RequestView, replies: Seq<ReplyView>, v: CheckoutView) -> bool {
    request.operation == Operation::Bump && past_aim(v.phase) ==> asked(
        request,
        replies,
        ActionView::PeelReference,
        Ok(Answer::Commit(v.target_id)),
    )
}

/// The target is the one that the operation asks for: the commit that the repository was found to
/// record for the submodule, or the commit at the tip of its branch, or of HEAD where it has none,
/// as just fetched from the remote.
pub open spec fn aims_right(
    request: RequestView,
    replies: Seq<ReplyView>,
    v: CheckoutView,
) -> bool {
    &&& asked(
        request,
        replies,
        ActionView::ReadSubmodule,
        Ok(
            Answer::Submodule {
                branch: v.branch,
                head_id: Some(v.head_id),
                workdir_id: v.workdir_id,
            },
        ),
    )
    &&& match request.operation {
        Operation::Checkout => v.target_id == v.head_id,
        Operation::Bump => {
            let branch = match v.branch {
                Some(branch) => branch,
                None => "HEAD"@,
            };
            &&& asked(request, replies, ActionView::Fetch(Some(branch)), Ok(Answer::Done))
            &&& asked(
                request,
                replies,
                ActionView::FindReference("refs/remotes/origin/"@ + branch),
                Ok(Answer::Done),
            )
            &&& asked(request, replies, ActionView::PeelReference, Ok(Answer::Commit(v.target_id)))
        },
    }
}

/// Why a remote is needed.
spec fn needs_remote(request: RequestView, replies: Seq<ReplyView>, v: CheckoutView) -> bool {
    &&& offset(Phase::InitRepository) <= offset(v.phase) <= offset(Phase::ReopenSubmodule)
        ==> asked_in_vain(request, replies, ActionView::OpenSubmodule)
    &&& offset(Phase::FindCommitRemote) <= offset(v.phase) <= offset(Phase::RefindCommit)
        ==> asked_in_vain(request, replies, ActionView::FindCommit(v.target_id))
}

/// What was asked stays asked as another reply comes, and that reply is the answer to what is
/// asked last.
proof fn lemma_asked_grows(request: RequestView, replies: Seq<ReplyView>)
    requires
        replies.len() > 0,
    ensures
        forall|action: ActionView, reply: ReplyView| #[trigger]
            asked(request, replies.drop_last(), action, reply) ==> asked(
                request,
                replies,
                action,
                reply,
            ),
        asked(
            request,
            replies,
            run(request, replies.drop_last()).action(),
            replies.last(),
        ),
{
    let front = replies.drop_last();
    assert forall|action: ActionView, reply: ReplyView| #[trigger]
        asked(request, front, action, reply) implies asked(request, replies, action, reply) by {
        let i = choose|i: int|
            0 <= i < front.len() && run(request, #[trigger] front.take(i)).action() == action
                && front[i] == reply;
        assert(replies.take(i) =~= front.take(i));
        assert(replies[i] == reply);
    }
    let i = replies.len() - 1;
    assert(replies.take(i) =~= front);
    assert(replies[i] == replies.last());
}

proof fn lemma_consistent_step(request: RequestView, v: CheckoutView, reply: ReplyView)
    requires
        consistent(request, v),
    ensures
        consistent(request, after(v, reply)),
{
    reveal(after);
}

proof fn lemma_consistent(request: RequestView, replies: Seq<ReplyView>)
    ensures
        consistent(request, run(request, replies)),
    decreases replies.len(),
{
    if replies.len() > 0 {
        let front = replies.drop_last();
        lemma_consistent(request, front);
        lemma_consistent_step(request, run(request, front), replies.last());
    }
}

/// What is known of the submodule stays, or was just read.
proof fn lemma_knows_submodule_step(v: CheckoutView, reply: ReplyView)
    ensures
        ({
            let w = after(v, reply);
            offset(Phase::OpenSubmodule) <= offset(w.phase) < offset(Phase::Finished) ==> {
                ||| offset(Phase::OpenSubmodule) <= offset(v.phase) < offset(Phase::Finished)
                    && w.branch == v.branch && w.head_id == v.head_id && w.workdir_id
                    == v.workdir_id
                ||| v.action() == ActionView::ReadSubmodule && reply == ReplyView::Ok(
                    Answer::Submodule {
                        branch: w.branch,
                        head_id: Some(w.head_id),
                        workdir_id: w.workdir_id,
                    },
                )
            }
        }),
{
    reveal(after);
}

proof fn lemma_knows_submodule(request: RequestView, replies: Seq<ReplyView>)
    ensures
        knows_submodule(request, replies, run(request, replies)),
    decreases replies.len(),
{
    if replies.len() > 0 {
        let front = replies.drop_last();
        lemma_knows_submodule(request, front);
        lemma_consistent(request, front);
        lemma_knows_submodule_step(run(request, front), replies.last());
        lemma_asked_grows(request, replies);
    }
}

/// A worktree that was found fit to be checked out stays so, or was just inspected.
proof fn lemma_inspected_step(v: CheckoutView, reply: ReplyView)
    requires
        !v.request.force_checkout,
    ensures
        ({
            let w = after(v, reply);
            &&& w.phase == Phase::ReadStatuses ==> v.phase == Phase::ReadStatuses || (v.action()
                == ActionView::ReadState && reply == ReplyView::Ok(
                Answer::State(RepositoryState::Clean),
            ))
            &&& past_statuses(w.phase) ==> {
                ||| past_statuses(v.phase) && w.untracked == v.untracked
                ||| v.phase == Phase::ReadStatuses && (reply matches Ok(Answer::Statuses(list))
                    && tidy(list) && w.untracked == untracked_paths(list))
            }
        }),
{
    reveal(after);
}

proof fn lemma_inspected(request: RequestView, replies: Seq<ReplyView>)
    ensures
        inspected(request, replies, run(request, replies)),
    decreases replies.len(),
{
    if replies.len() > 0 {
        let front = replies.drop_last();
        lemma_inspected(request, front);
        lemma_consistent(request, front);
        if !request.force_checkout {
            lemma_inspected_step(run(request, front), replies.last());
        }
        lemma_asked_grows(request, replies);
    }
}

/// An untracked file that was found not to be in the target stays so, or was just looked for.
proof fn lemma_searched_step(v: CheckoutView, reply: ReplyView)
    requires
        !v.request.force_checkout,
        v.valid(),
    ensures
        ({
            let w = after(v, reply);
            &&& w.phase == Phase::SearchCommitTree && w.searched > 0 ==> v.phase
                == Phase::SearchCommitTree && w.untracked == v.untracked
            &&& w.phase == Phase::SearchCommitTree && w.searched > v.searched ==> w.searched
                == v.searched + 1 && (reply matches Ok(Answer::Verdict(found)) && !found)
            &&& past_search(w.phase) && w.phase != Phase::Finished ==> {
                ||| past_search(v.phase) && v.phase != Phase::Finished && w.untracked
                    == v.untracked
                ||| w.untracked == v.untracked && w.untracked.len() == 0
                ||| v.phase == Phase::SearchCommitTree && w.untracked == v.untracked
                    && w.untracked.len() == v.searched + 1 && (reply matches Ok(
                    Answer::Verdict(found),
                ) && !found)
            }
        }),
{
    reveal(after);
}

proof fn lemma_searched(request: RequestView, replies: Seq<ReplyView>)
    ensures
        searched(request, replies, run(request, replies)),
    decreases replies.len(),
{
    if replies.len() > 0 {
        let front = replies.drop_last();
        lemma_searched(request, front);
        lemma_consistent(request, front);
        if !request.force_checkout {
            lemma_searched_step(run(request, front), replies.last());
        }
        lemma_asked_grows(request, replies);
    }
}

/// The branch to bump to stays fetched, or was just fetched.
proof fn lemma_fetched_step(v: CheckoutView, reply: ReplyView)
    requires
        v.request.operation == Operation::Bump,
    ensures
        ({
            let w = after(v, reply);
            w.phase == Phase::FindReference || w.phase == Phase::PeelReference || past_aim(w.phase)
                ==> w.branch == v.branch && {
                ||| v.phase == Phase::FindReference || v.phase == Phase::PeelReference || past_aim(
                    v.phase,
                )
                ||| v.phase == Phase::FetchBranch && reply == ReplyView::Ok(Answer::Done)
            }
        }),
{
    reveal(after);
}

proof fn lemma_fetched(request: RequestView, replies: Seq<ReplyView>)
    ensures
        fetched(request, replies, run(request, replies)),
    decreases replies.len(),
{
    if replies.len() > 0 {
        let front = replies.drop_last();
        lemma_fetched(request, front);
        lemma_consistent(request, front);
        if request.operation == Operation::Bump {
            lemma_fetched_step(run(request, front), replies.last());
        }
        lemma_asked_grows(request, replies);
    }
}

/// The reference of the branch to bump to stays found, or was just found.
proof fn lemma_referenced_step(v: CheckoutView, reply: ReplyView)
    requires
        v.request.operation == Operation::Bump,
    ensures
        ({
            let w = after(v, reply);
            w.phase == Phase::PeelReference || past_aim(w.phase) ==> w.branch == v.branch && {
                ||| v.phase == Phase::PeelReference || past_aim(v.phase)
                ||| v.phase == Phase::FindReference && reply == ReplyView::Ok(Answer::Done)
            }
        }),
{
    reveal(after);
}

proof fn lemma_referenced(request: RequestView, replies: Seq<ReplyView>)
    ensures
        referenced(request, replies, run(request, replies)),
    decreases replies.len(),
{
    if replies.len() > 0 {
        let front = replies.drop_last();
        lemma_referenced(request, front);
        lemma_consistent(request, front);
        if request.operation == Operation::Bump {
            lemma_referenced_step(run(request, front), replies.last());
        }
        lemma_asked_grows(request, replies);
    }
}

/// The target of a bump stays, or was just found.
proof fn lemma_peeled_step(v: CheckoutView, reply: ReplyView)
    requires
        v.request.operation == Operation::Bump,
    ensures
        ({
            let w = after(v, reply);
            past_aim(w.phase) ==> {
                ||| past_aim(v.phase) && w.target_id == v.target_id
                ||| v.phase == Phase::PeelReference && reply == ReplyView::Ok(
                    Answer::Commit(w.target_id),
                )
            }
        }),
{
    reveal(after);
}

proof fn lemma_peeled(request: RequestView, replies: Seq<ReplyView>)
    ensures
        peeled(request, replies, run(request, replies)),
    decreases replies.len(),
{
    if replies.len() > 0 {
        let front = replies.drop_last();
        lemma_peeled(request, front);
        lemma_consistent(request, front);
        if request.operation == Operation::Bump {
            lemma_peeled_step(run(request, front), replies.last());
        }
        lemma_asked_grows(request, replies);
    }
}

proof fn lemma_aims_right(request: RequestView, replies: Seq<ReplyView>)
    requires
        past_aim(run(request, replies).phase),
    ensures
        aims_right(request, replies, run(request, replies)),
{
    lemma_consistent(request, replies);
    lemma_knows_submodule(request, replies);
    lemma_fetched(request, replies);
    lemma_referenced(request, replies);
    lemma_peeled(request, replies);
}

/// A reason to reach out to a remote stays, or has just come up.
proof fn lemma_needs_remote_step(v: CheckoutView, reply: ReplyView)
    ensures
        ({
            let w = after(v, reply);
            &&& offset(Phase::InitRepository) <= offset(w.phase) <= offset(Phase::ReopenSubmodule)
                ==> {
                ||| offset(Phase::InitRepository) <= offset(v.phase) <= offset(
                    Phase::ReopenSubmodule,
                )
                ||| v.phase == Phase::OpenSubmodule && reply is Err
            }
            &&& offset(Phase::FindCommitRemote) <= offset(w.phase) <= offset(
                Phase::RefindCommit,
            ) ==> w.target_id == v.target_id && {
                ||| offset(Phase::FindCommitRemote) <= offset(v.phase) <= offset(
                    Phase::RefindCommit,
                )
                ||| v.phase == Phase::FindCommit && reply is Err
            }
        }),
{
    reveal(after);
}

proof fn lemma_needs_remote(request: RequestView, replies: Seq<ReplyView>)
    ensures
        needs_remote(request, replies, run(request, replies)),
    decreases replies.len(),
{
    if replies.len() > 0 {
        let front = replies.drop_last();
        lemma_needs_remote(request, front);
        lemma_consistent(request, front);
        lemma_needs_remote_step(run(request, front), replies.last());
        lemma_asked_grows(request, replies);
        if let Err(fault) = replies.last() {
            assert(asked(request, replies, run(request, front).action(), Err(fault)));
        }
    }
}

/// Where a phase stands in the order in which phases follow each other.
spec fn rank(phase: Phase) -> nat {
    if past_search(phase) {
        offset(phase) + 1
    } else {
        offset(phase)
    }
}

proof fn lemma_step_advances(v: CheckoutView, reply: ReplyView)
    ensures
        rank(v.phase) <= rank(after(v, reply).phase),
{
    reveal(after);
}

proof fn lemma_step_takes_effort(v: CheckoutView, reply: ReplyView)
    requires
        v.valid(),
        v.phase.fits(reply),
        offset(v.phase) <= offset(Phase::ReadStatuses) ==> v.untracked.len() == 0,
    ensures
        effort(after(v, reply)) > effort(v),
{
    reveal(after);
}

/// A checkout never goes back to an earlier phase.
proof fn lemma_phases_advance(request: RequestView, replies: Seq<ReplyView>, i: int)
    requires
        0 <= i <= replies.len(),
    ensures
        rank(run(request, replies.take(i)).phase) <= rank(run(request, replies).phase),
    decreases replies.len(),
{
    if i == replies.len() {
        assert(replies.take(i) =~= replies);
    } else {
        let front = replies.drop_last();
        lemma_phases_advance(request, front, i);
        assert(front.take(i) =~= replies.take(i));
        lemma_step_advances(run(request, front), replies.last());
    }
}

/// A reply that finished the checkout was the last that mattered: the checkout stays finished, and
/// came no further before than to the phase that the reply was given in.
proof fn lemma_ended(request: RequestView, replies: Seq<ReplyView>, n: int, i: int)
    requires
        0 <= n < replies.len(),
        after(run(request, replies.take(n)), replies[n]).phase == Phase::Finished,
        0 <= i <= replies.len(),
    ensures
        run(request, replies).phase == Phase::Finished,
        run(request, replies.take(i)).phase == Phase::Finished || rank(
            run(request, replies.take(i)).phase,
        ) <= rank(run(request, replies.take(n)).phase),
{
    let before = replies.take(n);
    let upto = replies.take(n + 1);
    assert(upto.drop_last() =~= before);
    assert(upto.last() == replies[n]);
    lemma_phases_advance(request, replies, n + 1);
    if i <= n {
        lemma_phases_advance(request, before, i);
        assert(before.take(i) =~= replies.take(i));
    } else {
        lemma_phases_advance(request, replies.take(i), n + 1);
        assert(replies.take(i).take(n + 1) =~= upto);
    }
}

/// HEAD was set to the target before the index is touched.
spec fn detached(request: RequestView, replies: Seq<ReplyView>, v: CheckoutView) -> bool {
    offset(Phase::OpenIndex) <= offset(v.phase) < offset(Phase::Finished) ==> asked(
        request,
        replies,
        ActionView::DetachHead(v.target_id),
        Ok(Answer::Done),
    )
}

/// HEAD stays at the target, or was just set to it.
proof fn lemma_detached_step(v: CheckoutView, reply: ReplyView)
    ensures
        ({
            let w = after(v, reply);
            offset(Phase::OpenIndex) <= offset(w.phase) < offset(Phase::Finished) ==> w.target_id
                == v.target_id && {
                ||| offset(Phase::OpenIndex) <= offset(v.phase) < offset(Phase::Finished)
                ||| v.phase == Phase::DetachHead && reply == ReplyView::Ok(Answer::Done)
            }
        }),
{
    reveal(after);
}

proof fn lemma_detached(request: RequestView, replies: Seq<ReplyView>)
    ensures
        detached(request, replies, run(request, replies)),
    decreases replies.len(),
{
    if replies.len() > 0 {
        let front = replies.drop_last();
        lemma_detached(request, front);
        lemma_consistent(request, front);
        lemma_detached_step(run(request, front), replies.last());
        lemma_asked_grows(request, replies);
    }
}

/// The index was made as HEAD has it before the worktree is.
spec fn refilled(request: RequestView, replies: Seq<ReplyView>, v: CheckoutView) -> bool {
    &&& offset(Phase::FillIndex) <= offset(v.phase) < offset(Phase::Finished) ==> asked(
        request,
        replies,
        ActionView::PeelHead,
        Ok(Answer::Done),
    )
    &&& offset(Phase::WriteIndex) <= offset(v.phase) < offset(Phase::Finished) ==> asked(
        request,
        replies,
        ActionView::FillIndex,
        Ok(Answer::Done),
    )
    &&& offset(Phase::CheckoutHead) <= offset(v.phase) < offset(Phase::Finished) ==> asked(
        request,
        replies,
        ActionView::WriteIndex,
        Ok(Answer::Done),
    )
}

/// Each part of the work on the index stays done, or was just done.
proof fn lemma_refilled_step(v: CheckoutView, reply: ReplyView)
    ensures
        ({
            let w = after(v, reply);
            &&& offset(Phase::FillIndex) <= offset(w.phase) < offset(Phase::Finished) ==> {
                ||| offset(Phase::FillIndex) <= offset(v.phase) < offset(Phase::Finished)
                ||| v.phase == Phase::PeelHead && reply == ReplyView::Ok(Answer::Done)
            }
            &&& offset(Phase::WriteIndex) <= offset(w.phase) < offset(Phase::Finished) ==> {
                ||| offset(Phase::WriteIndex) <= offset(v.phase) < offset(Phase::Finished)
                ||| v.phase == Phase::FillIndex && reply == ReplyView::Ok(Answer::Done)
            }
            &&& offset(Phase::CheckoutHead) <= offset(w.phase) < offset(Phase::Finished) ==> {
                ||| offset(Phase::CheckoutHead) <= offset(v.phase) < offset(Phase::Finished)
                ||| v.phase == Phase::WriteIndex && reply == ReplyView::Ok(Answer::Done)
            }
        }),
{
    reveal(after);
}

proof fn lemma_refilled(request: RequestView, replies: Seq<ReplyView>)
    ensures
        refilled(request, replies, run(request, replies)),
    decreases replies.len(),
{
    if replies.len() > 0 {
        let front = replies.drop_last();
        lemma_refilled(request, front);
        lemma_refilled_step(run(request, front), replies.last());
        lemma_asked_grows(request, replies);
    }
}

/// Without force, no file is overwritten and HEAD is not moved unless the repository of the
/// submodule was found in a clean state, with nothing in conflict, in the index or modified.
pub proof fn law_local_changes_survive(request: RequestView, replies: Seq<ReplyView>)
    requires
        !request.force_checkout,
        is_destructive(run(request, replies).action()),
    ensures
        asked(request, replies, ActionView::ReadState, Ok(Answer::State(RepositoryState::Clean))),
        found_tidy(request, replies, run(request, replies).untracked),
{
    lemma_inspected(request, replies);
}

/// Without force, HEAD is not moved unless each untracked file, whatever its name and in whatever
/// directory, was looked for at its path in the tree of the target and is not there.
pub proof fn law_untracked_files_survive(request: RequestView, replies: Seq<ReplyView>)
    requires
        !request.force_checkout,
        run(request, replies).action() is DetachHead,
    ensures
        exists|list: Seq<StatusEntryView>| #[trigger]
            asked(request, replies, list_files(), Ok(Answer::Statuses(list))) && forall|
                k: int,
            |
                0 <= k < untracked_paths(list).len() ==> found_absent(
                    request,
                    replies,
                    #[trigger] untracked_paths(list)[k],
                ),
{
    lemma_inspected(request, replies);
    lemma_searched(request, replies);
}

/// A worktree that is found to have something in conflict, in the index or modified ends the
/// checkout before anything is overwritten or HEAD is moved.
pub proof fn law_untidy_worktree_is_left_alone(
    request: RequestView,
    replies: Seq<ReplyView>,
    list: Seq<StatusEntryView>,
    i: int,
)
    requires
        asked(request, replies, list_files(), Ok(Answer::Statuses(list))),
        !tidy(list),
        0 <= i <= replies.len(),
    ensures
        run(request, replies).phase == Phase::Finished,
        !is_destructive(run(request, replies.take(i)).action()),
{
    let n = choose|n: int|
        0 <= n < replies.len() && run(request, #[trigger] replies.take(n)).action()
            == list_files() && replies[n] == ReplyView::Ok(Answer::Statuses(list));
    assert(after(run(request, replies.take(n)), replies[n]).phase == Phase::Finished) by {
        reveal(after);
    }
    lemma_ended(request, replies, n, i);
}

/// An untracked file that is found in the target ends the checkout before HEAD is moved.
pub proof fn law_overwritten_file_stops_the_move(
    request: RequestView,
    replies: Seq<ReplyView>,
    file: Seq<u8>,
    i: int,
)
    requires
        asked(request, replies, ActionView::SearchCommitTree(file), Ok(Answer::Verdict(true))),
        0 <= i <= replies.len(),
    ensures
        run(request, replies).phase == Phase::Finished,
        !(run(request, replies.take(i)).action() is DetachHead),
{
    let n = choose|n: int|
        0 <= n < replies.len() && run(request, #[trigger] replies.take(n)).action()
            == ActionView::SearchCommitTree(file) && replies[n] == ReplyView::Ok(
            Answer::Verdict(true),
        );
    assert(after(run(request, replies.take(n)), replies[n]).phase == Phase::Finished) by {
        reveal(after);
    }
    lemma_ended(request, replies, n, i);
}

/// With force, neither the state of the repository, nor its changed files, nor the tree of the
/// target are asked for.
pub proof fn law_force_skips_inspection(request: RequestView, replies: Seq<ReplyView>)
    requires
        request.force_checkout,
    ensures
        ({
            let action = run(request, replies).action();
            !(action is ReadState || action is ReadStatuses || action is ReadCommitTree
                || action is SearchCommitTree)
        }),
{
    lemma_consistent(request, replies);
}

/// With force, nothing but an operation that fails stops the checkout of a submodule that has a
/// name to be found by and a commit recorded for it.
pub proof fn law_force_goes_on(
    request: RequestView,
    replies: Seq<ReplyView>,
    answer: Answer<Seq<char>, Seq<StatusEntryView>>,
)
    requires
        request.force_checkout,
        request.lookup_name() is Some,
        run(request, replies).phase.fits(Ok(answer)),
        answer is Submodule ==> answer->head_id is Some,
    ensures
        match run(request, replies).step(Ok(answer)).1 {
            Progress::Next => true,
            Progress::Finished(result) => result is Ok,
            _ => false,
        },
{
    lemma_consistent(request, replies);
}

/// A plain checkout moves HEAD only to the commit that the repository records for the submodule.
pub proof fn law_checkout_goes_to_the_recorded_commit(
    request: RequestView,
    replies: Seq<ReplyView>,
    id: Seq<char>,
)
    requires
        request.operation == Operation::Checkout,
        run(request, replies).action() == ActionView::DetachHead(id),
    ensures
        exists|branch: Option<Seq<char>>, workdir_id: Option<Seq<char>>| #[trigger]
            asked(
                request,
                replies,
                ActionView::ReadSubmodule,
                Ok(Answer::Submodule { branch, head_id: Some(id), workdir_id }),
            ),
{
    lemma_consistent(request, replies);
    lemma_knows_submodule(request, replies);
}

/// A bump moves HEAD only to the commit at the tip of the branch of the submodule, or of HEAD
/// where it has none, as just fetched from the remote.
pub proof fn law_bump_goes_to_the_tip_of_the_branch(
    request: RequestView,
    replies: Seq<ReplyView>,
    id: Seq<char>,
)
    requires
        request.operation == Operation::Bump,
        run(request, replies).action() == ActionView::DetachHead(id),
    ensures
        run(request, replies).target_id == id,
        aims_right(request, replies, run(request, replies)),
{
    lemma_aims_right(request, replies);
}

/// A checkout that succeeds says that nothing changed exactly where the submodule was at the
/// target from the start; otherwise HEAD was moved to the target, and the index made as HEAD has
/// it. The target is the commit that the repository records for the submodule, or for a bump the
/// tip of its branch. The last operation made the worktree as HEAD has it.
pub proof fn law_result_tells_whether_it_moved(
    request: RequestView,
    replies: Seq<ReplyView>,
    reply: ReplyView,
    result: CheckoutResult,
)
    requires
        run(request, replies).step(reply).1 == Progress::Finished(
            Ok::<CheckoutResult, Seq<Seq<char>>>(result),
        ),
    ensures
        ({
            let v = run(request, replies);
            &&& aims_right(request, replies, v)
            &&& result == CheckoutResult::Unchanged <==> v.workdir_id == Some(v.target_id)
            &&& result == CheckoutResult::Changed ==> {
                &&& asked(
                    request,
                    replies,
                    ActionView::DetachHead(v.target_id),
                    Ok(Answer::Done),
                )
                &&& asked(request, replies, ActionView::PeelHead, Ok(Answer::Done))
                &&& asked(request, replies, ActionView::FillIndex, Ok(Answer::Done))
                &&& asked(request, replies, ActionView::WriteIndex, Ok(Answer::Done))
            }
            &&& v.action() == (ActionView::CheckoutHead { force: true })
            &&& reply == ReplyView::Ok(Answer::Done)
        }),
{
    lemma_consistent(request, replies);
    lemma_aims_right(request, replies);
    lemma_detached(request, replies);
    lemma_refilled(request, replies);
}

/// A checkout that says that nothing changed never moved HEAD.
pub proof fn law_unchanged_moves_nothing(
    request: RequestView,
    replies: Seq<ReplyView>,
    reply: ReplyView,
    i: int,
)
    requires
        run(request, replies).step(reply).1 == Progress::Finished(
            Ok::<CheckoutResult, Seq<Seq<char>>>(CheckoutResult::Unchanged),
        ),
        0 <= i <= replies.len(),
    ensures
        !(run(request, replies.take(i)).action() is DetachHead),
{
    lemma_phases_advance(request, replies, i);
}

/// Whether a reply is one that a submodule at rest brings: nothing fails, its repository records
/// the commit `recorded` for it, it is at the commit `current`, nothing is under way in it, and no
/// change would be lost.
pub open spec fn is_settled(reply: ReplyView, recorded: Seq<char>, current: Seq<char>) -> bool {
    match reply {
        Ok(Answer::Submodule { head_id, workdir_id, .. }) => head_id == Some(recorded)
            && workdir_id == Some(current),
        Ok(Answer::State(state)) => state == RepositoryState::Clean,
        Ok(Answer::Statuses(list)) => tidy(list),
        Ok(_) => true,
        Err(_) => false,
    }
}

/// How many operations a plain checkout takes where there is nothing to do.
pub open spec fn quiet_len(request: RequestView) -> nat {
    if request.force_checkout {
        7
    } else {
        9
    }
}

/// The phase that a plain checkout with nothing to do is in after this many operations.
spec fn quiet_phase(request: RequestView, n: nat) -> Phase {
    if n >= quiet_len(request) {
        Phase::Finished
    } else if n == 0 {
        Phase::OpenRepository
    } else if n == 1 {
        Phase::FindSubmodule
    } else if n == 2 {
        Phase::InitSubmodule
    } else if n == 3 {
        Phase::SyncSubmodule
    } else if n == 4 {
        Phase::ReadSubmodule
    } else if n == 5 {
        Phase::OpenSubmodule
    } else if n == quiet_len(request) - 1 {
        Phase::RefreshWorktree
    } else if n == 6 {
        Phase::ReadState
    } else {
        Phase::ReadStatuses
    }
}

/// A plain checkout with nothing to do goes through its phases one by one.
proof fn lemma_quiet_step(v: CheckoutView, reply: ReplyView, id: Seq<char>, n: nat)
    requires
        v.request.operation == Operation::Checkout,
        v.request.lookup_name() is Some,
        n < quiet_len(v.request),
        v.phase == quiet_phase(v.request, n),
        n > 4 ==> v.head_id == id && v.workdir_id == Some(id),
        v.phase.fits(reply),
        is_settled(reply, id, id),
    ensures
        after(v, reply).phase == quiet_phase(v.request, n + 1),
        n + 1 > 4 ==> after(v, reply).head_id == id && after(v, reply).workdir_id == Some(id),
        n + 1 == quiet_len(v.request) ==> v.step(reply).1 == Progress::Finished(
            Ok::<CheckoutResult, Seq<Seq<char>>>(CheckoutResult::Unchanged),
        ),
{
    reveal(after);
}

proof fn lemma_quiet(request: RequestView, replies: Seq<ReplyView>, id: Seq<char>)
    requires
        request.operation == Operation::Checkout,
        request.lookup_name() is Some,
        all_fit(request, replies),
        forall|i: int| 0 <= i < replies.len() ==> is_settled(#[trigger] replies[i], id, id),
    ensures
        replies.len() <= quiet_len(request),
        run(request, replies).phase == quiet_phase(request, replies.len()),
        replies.len() > 4 ==> run(request, replies).head_id == id && run(
            request,
            replies,
        ).workdir_id == Some(id),
        replies.len() == quiet_len(request) ==> run(request, replies.drop_last()).step(
            replies.last(),
        ).1 == Progress::Finished(
            Ok::<CheckoutResult, Seq<Seq<char>>>(CheckoutResult::Unchanged),
        ),
    decreases replies.len(),
{
    if replies.len() > 0 {
        let front = replies.drop_last();
        let last = replies.len() - 1;
        lemma_all_fit_front(request, replies);
        assert forall|i: int| 0 <= i < front.len() implies is_settled(
            #[trigger] front[i],
            id,
            id,
        ) by {
            assert(front[i] == replies[i]);
        }
        lemma_quiet(request, front, id);
        lemma_consistent(request, front);
        assert(replies.take(last) =~= front);
        assert(replies[last] == replies.last());
        lemma_quiet_step(run(request, front), replies.last(), id, front.len());
    }
}

/// A plain checkout that is run again after it succeeded, with nothing changed since, says that
/// nothing changed and does not move HEAD: it is the same request to a submodule whose recorded
/// commit is the one of the first checkout, and which is at the target of the first checkout.
pub proof fn law_second_checkout_changes_nothing(
    request: RequestView,
    first: Seq<ReplyView>,
    last: ReplyView,
    result: CheckoutResult,
    second: Seq<ReplyView>,
)
    requires
        request.operation == Operation::Checkout,
        run(request, first).step(last).1 == Progress::Finished(
            Ok::<CheckoutResult, Seq<Seq<char>>>(result),
        ),
        all_fit(request, second),
        forall|i: int|
            0 <= i < second.len() ==> is_settled(
                #[trigger] second[i],
                run(request, first).head_id,
                run(request, first).target_id,
            ),
    ensures
        !(run(request, second).action() is DetachHead),
        second.len() < quiet_len(request) ==> run(request, second).phase != Phase::Finished,
        second.len() == quiet_len(request) ==> run(request, second.drop_last()).step(
            second.last(),
        ).1 == Progress::Finished(
            Ok::<CheckoutResult, Seq<Seq<char>>>(CheckoutResult::Unchanged),
        ),
        second.len() <= quiet_len(request),
{
    lemma_consistent(request, first);
    lemma_quiet(request, second, run(request, first).head_id);
}

/// A plain checkout reaches out to a remote only where the submodule could not be opened or the
/// target is not there.
pub proof fn law_checkout_stays_offline(request: RequestView, replies: Seq<ReplyView>)
    requires
        request.operation == Operation::Checkout,
        is_remote(run(request, replies).action()),
    ensures
        asked_in_vain(request, replies, ActionView::OpenSubmodule) || asked_in_vain(
            request,
            replies,
            ActionView::FindCommit(run(request, replies).target_id),
        ),
{
    lemma_consistent(request, replies);
    lemma_needs_remote(request, replies);
}

/// A checkout comes to an end: it asks for at most 83 operations, retries counted, and one more
/// for each untracked file.
pub proof fn law_checkout_ends(request: RequestView, replies: Seq<ReplyView>)
    requires
        all_fit(request, replies),
    ensures
        replies.len() <= effort(run(request, replies)),
        replies.len() <= 83 + run(request, replies).untracked.len(),
    decreases replies.len(),
{
    lemma_consistent(request, replies);
    if replies.len() > 0 {
        let front = replies.drop_last();
        lemma_all_fit_front(request, replies);
        law_checkout_ends(request, front);
        lemma_consistent(request, front);
        let last = replies.len() - 1;
        assert(replies.take(last) =~= front);
        lemma_step_takes_effort(run(request, front), replies.last());
    }
}

proof fn lemma_retry_step(v: CheckoutView, reply: ReplyView)
    requires
        v.valid(),
        v.phase.fits(reply),
    ensures
        ({
            let w = after(v, reply);
            w.failures > 0 ==> {
                &&& w.phase == v.phase
                &&& w.failures == v.failures + 1
                &&& reply matches Err(fault) && v.tries_again(fault)
            }
        }),
{
    reveal(after);
}

/// An operation is tried again only right after it failed with trouble that may pass, and not more
/// often than its rule allows.
pub proof fn law_retries_follow_passing_trouble(
    request: RequestView,
    replies: Seq<ReplyView>,
    k: int,
)
    requires
        all_fit(request, replies),
        0 <= k < run(request, replies).failures,
    ensures
        run(request, replies).failures <= run(request, replies).phase.retry_limit(),
        ({
            let i = replies.len() - 1 - k;
            let earlier = run(request, replies.take(i));
            &&& 0 <= i < replies.len()
            &&& earlier.phase == run(request, replies).phase
            &&& earlier.failures == run(request, replies).failures - 1 - k
            &&& replies[i] matches Err(fault) && earlier.tries_again(fault)
        }),
    decreases replies.len(),
{
    lemma_consistent(request, replies);
    let front = replies.drop_last();
    lemma_consistent(request, front);
    let last = replies.len() - 1;
    assert(replies.take(last) =~= front);
    lemma_retry_step(run(request, front), replies.last());
    if k > 0 {
        lemma_all_fit_front(request, replies);
        law_retries_follow_passing_trouble(request, front, k - 1);
        assert(front.take(last - k) =~= replies.take(last - k));
    }
}

/// A finished checkout asks for nothing more and stays as it is.
pub proof fn law_finished_stays_finished(v: CheckoutView, reply: ReplyView)
    requires
        v.phase == Phase::Finished,
    ensures
        v.action() == ActionView::Nothing,
        v.step(reply) == (v, Progress::<Seq<Seq<char>>>::Unexpected),
{
}

/// An operation that was asked for, and failed, before the checkout goes on elsewhere.
#[verifier::rlimit(50)]
proof fn lemma_not_in_vain(request: RequestView, replies: Seq<ReplyView>, action: ActionView)
    requires
        asked_in_vain(request, replies, action),
        action is OpenSubmodule || action is FindCommit,
    ensures
        action is OpenSubmodule ==> rank(run(request, replies).phase) > rank(Phase::OpenSubmodule),
        action is FindCommit ==> rank(run(request, replies).phase) > rank(Phase::FindCommit),
{
    let fault = choose|fault: FaultView| #[trigger] asked(request, replies, action, Err(fault));
    let n = choose|n: int|
        0 <= n < replies.len() && run(request, #[trigger] replies.take(n)).action() == action
            && replies[n] == ReplyView::Err(fault);
    let upto = replies.take(n + 1);
    assert(upto.drop_last() =~= replies.take(n));
    assert(upto.last() == replies[n]);
    assert(action is OpenSubmodule ==> rank(run(request, upto).phase) > rank(
        Phase::OpenSubmodule,
    )) by {
        reveal(after);
    }
    assert(action is FindCommit ==> rank(run(request, upto).phase) > rank(Phase::FindCommit)) by {
        reveal(after);
    }
    lemma_phases_advance(request, replies, n + 1);
}

/// Whether a commit was looked for in vain.
pub open spec fn missed_a_commit(request: RequestView, replies: Seq<ReplyView>) -> bool {
    exists|id: Seq<char>| #[trigger] asked_in_vain(request, replies, ActionView::FindCommit(id))
}

/// The end of a checkout that fails, with what could not be done and why.
pub open spec fn fails(what: Seq<char>, fault: FaultView) -> Progress<Seq<Seq<char>>> {
    Progress::Finished(Err(seq![what, fault.message]))
}

/// Whether an error is trouble that may pass, and the operation was not tried again too often yet:
/// a lock that is held is waited for three times, the network ten times.
pub open spec fn may_pass(action: ActionView, failures: nat, fault: FaultView) -> bool {
    match action {
        ActionView::InitSubmodule { .. } | ActionView::SyncSubmodule => fault.code
            == ErrorCode::Locked && failures < 3,
        ActionView::UpdateSubmodule { .. } | ActionView::Fetch(_) => {
            &&& fault.class == ErrorClass::Net || (fault.class == ErrorClass::Ssh && fault.code
                != ErrorCode::Auth)
            &&& failures < 10
        },
        _ => false,
    }
}

/// What follows an error. Passing trouble is waited out. A submodule that cannot be opened, for
/// whatever reason, is made, once. A commit that cannot be found, for whatever reason, is fetched,
/// once; where the remote does not have it as a single commit, everything is. A clone that the
/// operating system broke off and an update that misses a commit are put up with. Every other error
/// ends the checkout, and says what could not be done.
#[verifier::rlimit(50)]
pub proof fn law_what_follows_an_error(
    request: RequestView,
    replies: Seq<ReplyView>,
    fault: FaultView,
)
    ensures
        ({
            let v = run(request, replies);
            let action = v.action();
            let (w, progress) = v.step(Err(fault));
            let missing = fault.class == ErrorClass::Odb && fault.code == ErrorCode::NotFound;
            let made = asked_in_vain(request, replies, ActionView::OpenSubmodule);
            if may_pass(action, v.failures, fault) {
                progress == Progress::<Seq<Seq<char>>>::Retry(Some(1000)) && w.action() == action
            } else {
                match action {
                    ActionView::OpenRepository => progress == fails(
                        "Could not open repository at path '"@ + request.repository + "'"@,
                        fault,
                    ),
                    ActionView::FindSubmodule(_) => progress == fails(
                        "Could not find submodule"@,
                        fault,
                    ),
                    ActionView::InitSubmodule { .. } => progress == fails(
                        "Could not init submodule"@,
                        fault,
                    ),
                    ActionView::SyncSubmodule => if made {
                        progress == Progress::<Seq<Seq<char>>>::Panic(
                            seq!["Could not sync submodule"@, fault.message],
                        )
                    } else {
                        progress == fails("Could not sync submodule"@, fault)
                    },
                    ActionView::OpenSubmodule => if made {
                        progress == fails("Could not open submodule"@, fault)
                    } else {
                        &&& progress == Progress::<Seq<Seq<char>>>::Next
                        &&& w.action() == ActionView::InitRepository { use_gitlink: true }
                    },
                    ActionView::InitRepository { .. } => progress == fails(
                        "Could not initialize submodule"@,
                        fault,
                    ),
                    ActionView::ReadGitFile => progress == fails(
                        "Not able to read .git file"@,
                        fault,
                    ),
                    ActionView::CloneSubmodule { .. } => if fault.class == ErrorClass::Os {
                        &&& progress == Progress::<Seq<Seq<char>>>::Next
                        &&& w.action() == ActionView::LookForGitFile
                    } else {
                        progress == fails("Could not clone submodule"@, fault)
                    },
                    ActionView::WriteGitFile(_) => progress == fails(
                        "Unable to write .git file"@,
                        fault,
                    ),
                    ActionView::UpdateSubmodule { .. } => if missing {
                        &&& progress == Progress::<Seq<Seq<char>>>::Next
                        &&& w.action() == ActionView::SyncSubmodule
                    } else {
                        progress == fails("Could not update submodule"@, fault)
                    },
                    ActionView::ReadStatuses { .. } => progress == fails(
                        "Could not access submodule status"@,
                        fault,
                    ),
                    ActionView::FindRemote(_) => progress == fails(
                        "Could not find submodule remote"@,
                        fault,
                    ),
                    ActionView::Fetch(None) => progress == fails(
                        "Could not fetch submodule"@,
                        fault,
                    ),
                    ActionView::Fetch(Some(_)) => if !missed_a_commit(request, replies) {
                        progress == fails("Could not fetch remote branch"@, fault)
                    } else if missing {
                        &&& progress == Progress::<Seq<Seq<char>>>::Next
                        &&& w.action() == ActionView::Fetch(None)
                    } else {
                        progress == fails("Could not fetch submodule"@, fault)
                    },
                    ActionView::FindReference(name) => progress == fails(
                        "Could not find reference "@ + name + " in submodule "@ + request.path,
                        fault,
                    ),
                    ActionView::PeelReference => exists|name: Seq<char>|
                        progress == fails(
                            "Could not get commit from reference "@ + name + " in submodule "@
                                + request.path,
                            fault,
                        ) && #[trigger] asked(
                            request,
                            replies,
                            ActionView::FindReference(name),
                            Ok(Answer::Done),
                        ),
                    ActionView::FindCommit(id) => if asked_in_vain(request, replies, action) {
                        progress == fails("Could not find commit in submodule"@, fault)
                    } else {
                        &&& progress == Progress::<Seq<Seq<char>>>::Next
                        &&& w.action() == ActionView::FindRemote("origin"@)
                    },
                    ActionView::ReadCommitTree | ActionView::SearchCommitTree(_) => progress
                        == fails("Could not get commit's tree"@, fault),
                    ActionView::DetachHead(_) => progress == fails(
                        "Could not set head in submodule"@,
                        fault,
                    ),
                    ActionView::OpenIndex => progress == fails(
                        "Could not get submodule's index file"@,
                        fault,
                    ),
                    ActionView::ReadHead
                    | ActionView::PeelHead
                    | ActionView::FillIndex
                    | ActionView::WriteIndex => progress == Progress::Finished(
                        Err::<CheckoutResult, Seq<Seq<char>>>(seq![fault.message]),
                    ),
                    ActionView::CheckoutHead { .. } => progress == fails(
                        "Could not checkout head"@,
                        fault,
                    ),
                    ActionView::ReadSubmodule
                    | ActionView::LookForGitFile
                    | ActionView::ReadState
                    | ActionView::Nothing => {
                        &&& progress == Progress::<Seq<Seq<char>>>::Unexpected
                        &&& w == v
                    },
                }
            }
        }),
{
    let v = run(request, replies);
    lemma_consistent(request, replies);
    lemma_needs_remote(request, replies);
    lemma_referenced(request, replies);
    if asked_in_vain(request, replies, ActionView::OpenSubmodule) {
        lemma_not_in_vain(request, replies, ActionView::OpenSubmodule);
    }
    if missed_a_commit(request, replies) {
        let id = choose|id: Seq<char>| #[trigger]
            asked_in_vain(request, replies, ActionView::FindCommit(id));
        lemma_not_in_vain(request, replies, ActionView::FindCommit(id));
    }
    if asked_in_vain(request, replies, ActionView::FindCommit(v.target_id)) {
        lemma_not_in_vain(request, replies, ActionView::FindCommit(v.target_id));
    }
}

/// Whether an answer is of the kind that an operation brings.
pub open spec fn is_answer_to(
    answer: Answer<Seq<char>, Seq<StatusEntryView>>,
    action: ActionView,
) -> bool {
    match action {
        ActionView::ReadSubmodule => answer is Submodule,
        ActionView::ReadGitFile => answer is Text,
        ActionView::LookForGitFile | ActionView::SearchCommitTree(_) => answer is Verdict,
        ActionView::ReadState => answer is State,
        ActionView::ReadStatuses { .. } => answer is Statuses,
        ActionView::PeelReference => answer is Commit,
        ActionView::Nothing => false,
        _ => answer is Done,
    }
}

/// What stops a checkout though nothing failed: a submodule that cannot be named or for which no
/// commit is recorded, a repository in which something is under way, and changes that would be
/// lost. Answers of another kind than was asked for are disregarded.
#[verifier::rlimit(50)]
pub proof fn law_what_stops_a_checkout(
    request: RequestView,
    replies: Seq<ReplyView>,
    answer: Answer<Seq<char>, Seq<StatusEntryView>>,
)
    ensures
        ({
            let v = run(request, replies);
            let (w, progress) = v.step(Ok(answer));
            if !is_answer_to(answer, v.action()) {
                progress == Progress::<Seq<Seq<char>>>::Unexpected && w == v
            } else {
                match (v.action(), answer) {
                    (ActionView::OpenRepository, _) => if request.submodule_name is None
                        && request.utf8_path is None {
                        progress == Progress::Finished(
                            Err::<CheckoutResult, Seq<Seq<char>>>(
                                seq!["Unsupported Non-UTF8 path '"@ + request.path + "'"@],
                            ),
                        )
                    } else {
                        progress == Progress::<Seq<Seq<char>>>::Next
                    },
                    (ActionView::ReadSubmodule, Answer::Submodule { head_id, .. }) => if head_id
                        is None {
                        progress == Progress::Finished(
                            Err::<CheckoutResult, Seq<Seq<char>>>(
                                seq!["no head id for submodule"@],
                            ),
                        )
                    } else {
                        progress == Progress::<Seq<Seq<char>>>::Next
                    },
                    (ActionView::ReadState, Answer::State(state)) => if state
                        != RepositoryState::Clean {
                        progress == Progress::Finished(
                            Err::<CheckoutResult, Seq<Seq<char>>>(
                                seq![
                                    "The submodule is not in a clean state (is a rebase in progress?"@,
                                ],
                            ),
                        )
                    } else {
                        progress == Progress::<Seq<Seq<char>>>::Next
                    },
                    (ActionView::ReadStatuses { .. }, Answer::Statuses(list)) => if !tidy(list) {
                        progress == Progress::Finished(
                            Err::<CheckoutResult, Seq<Seq<char>>>(
                                seq![
                                    "Repository '"@ + request.path + "' is not clean: "@ + decimal(
                                        changes(list, Change::Conflict).len(),
                                    ) + " conflicts, "@ + decimal(
                                        changes(list, Change::Indexed).len(),
                                    ) + " indexed, "@ + decimal(
                                        changes(list, Change::Modified).len(),
                                    ) + " modified"@,
                                ],
                            ),
                        )
                    } else {
                        progress == Progress::<Seq<Seq<char>>>::Next
                    },
                    (ActionView::SearchCommitTree(_), Answer::Verdict(found)) => if found {
                        progress matches Progress::Finished(result) && result is Err
                    } else {
                        progress == Progress::<Seq<Seq<char>>>::Next
                    },
                    (ActionView::CheckoutHead { .. }, _) => progress matches Progress::Finished(
                        result,
                    ) && result is Ok,
                    _ => progress == Progress::<Seq<Seq<char>>>::Next,
                }
            }
        }),
{
    lemma_consistent(request, replies);
}

} // verus!
