//! What the state of a worktree allows.
use crate::flags::{
    is_conflicted, is_wt_new, law_flags_by_bit, share_a_flag, status_intersects,
    submodule_status_intersects, CONFLICTED, FILE_FLAGS, INDEX_CHANGES, SUBMODULE_FLAGS,
    SUBMODULE_INDEX_CHANGES, WORKTREE_CHANGES, WT_NEW,
};
use vstd::prelude::*;

verus! {

/// What is under way in a repository.
#[derive(Clone, Copy, Debug, PartialEq, Eq, Structural)]
pub enum RepositoryState {
    /// Nothing.
    Clean,
    Merge,
    Revert,
    RevertSequence,
    CherryPick,
    CherryPickSequence,
    Bisect,
    Rebase,
    RebaseInteractive,
    RebaseMerge,
    ApplyMailbox,
    ApplyMailboxOrRebase,
}

/// The path of a file in a worktree.
#[derive(Debug)]
pub struct FilePath {
    /// The path as git has it, which need not be valid UTF-8.
    pub bytes: Vec<u8>,
    /// The path for display.
    pub shown: String,
}

/// A [`FilePath`] as a value.
#[verifier::ext_equal]
pub struct FilePathView {
    pub bytes: Seq<u8>,
    pub shown: Seq<char>,
}

impl View for FilePath {
    type V = FilePathView;

    open spec fn view(&self) -> FilePathView {
        FilePathView { bytes: self.bytes@, shown: self.shown@ }
    }
}

impl FilePath {
    /// The same path.
    pub fn copy(&self) -> (path: FilePath)
        ensures
            path@ == self@,
    {
        let path = FilePath { bytes: self.bytes.clone(), shown: self.shown.clone() };
        assert(path.bytes@ =~= self.bytes@);
        path
    }
}

/// The paths of a list as values.
pub open spec fn file_paths(list: Seq<FilePath>) -> Seq<FilePathView> {
    list.map_values(|p: FilePath| p@)
}

/// A file that is not as HEAD has it.
#[derive(Debug)]
pub struct StatusEntry {
    /// The path of the file.
    pub path: FilePath,
    /// The flags of the file.
    pub status: u32,
    /// The flags of the submodule at that path, where there is one.
    pub submodule_status: Option<u32>,
}

/// What a [`StatusEntry`] says, as a value.
pub struct StatusEntryView {
    pub path: FilePathView,
    pub status: u32,
    pub submodule_status: Option<u32>,
}

impl View for StatusEntry {
    type V = StatusEntryView;

    open spec fn view(&self) -> StatusEntryView {
        StatusEntryView {
            path: self.path@,
            status: self.status,
            submodule_status: self.submodule_status,
        }
    }
}

/// The entries of a list as values.
pub open spec fn entries(list: Seq<StatusEntry>) -> Seq<StatusEntryView> {
    list.map_values(|e: StatusEntry| e@)
}

/// What a changed file means for a checkout.
#[derive(Clone, Copy, Debug, PartialEq, Eq, Structural)]
pub enum Change {
    /// The file is in conflict.
    Conflict,
    /// The change is in the index.
    Indexed,
    /// A tracked file is changed in the worktree.
    Modified,
    /// The file is untracked.
    Untracked,
    /// The change does not matter: it is only the commit or the contents of a submodule, or it is
    /// none of the above.
    Harmless,
}

/// What a changed file means for a checkout.
///
/// A submodule that is not at the right commit does not stand in the way of a checkout, which
/// leaves submodules alone, as long as the index does not change the submodule itself. For any
/// other file the flags decide, whatever its path.
pub open spec fn change(entry: StatusEntryView) -> Change {
    if entry.submodule_status matches Some(flags) && !share_a_flag(
        flags,
        SUBMODULE_INDEX_CHANGES,
    ) {
        Change::Harmless
    } else if share_a_flag(entry.status, CONFLICTED) {
        Change::Conflict
    } else if share_a_flag(entry.status, INDEX_CHANGES) {
        Change::Indexed
    } else if share_a_flag(entry.status, WORKTREE_CHANGES) {
        Change::Modified
    } else if share_a_flag(entry.status, WT_NEW) {
        Change::Untracked
    } else {
        Change::Harmless
    }
}

/// The entries with a given meaning.
pub open spec fn changes(list: Seq<StatusEntryView>, kind: Change) -> Seq<StatusEntryView> {
    list.filter(|e: StatusEntryView| change(e) == kind)
}

/// The paths of the untracked files, in order.
pub open spec fn untracked_paths(list: Seq<StatusEntryView>) -> Seq<FilePathView> {
    changes(list, Change::Untracked).map_values(|e: StatusEntryView| e.path)
}

/// Whether no change would be lost by a checkout of tracked files: nothing is in conflict, in the
/// index or modified.
pub open spec fn tidy(list: Seq<StatusEntryView>) -> bool {
    forall|i: int|
        0 <= i < list.len() ==> {
            let kind = change(#[trigger] list[i]);
            kind == Change::Untracked || kind == Change::Harmless
        }
}

/// The changes of a worktree, counted.
#[derive(Debug)]
pub struct Survey {
    pub conflicts: usize,
    pub indexed: usize,
    pub modified: usize,
    /// The paths of the untracked files.
    pub untracked: Vec<FilePath>,
}

impl Survey {
    /// Whether the survey describes the changed files `list`.
    pub open spec fn describes(&self, list: Seq<StatusEntryView>) -> bool {
        &&& self.conflicts == changes(list, Change::Conflict).len()
        &&& self.indexed == changes(list, Change::Indexed).len()
        &&& self.modified == changes(list, Change::Modified).len()
        &&& file_paths(self.untracked@) == untracked_paths(list)
    }
}

/// Tells what a changed file means for a checkout.
pub fn classify(entry: &StatusEntry) -> (kind: Change)
    ensures
        kind == change(entry@),
{
    proof {
        assert(INDEX_CHANGES & !FILE_FLAGS == 0) by (bit_vector);
        assert(WORKTREE_CHANGES & !FILE_FLAGS == 0) by (bit_vector);
        assert(SUBMODULE_INDEX_CHANGES & !SUBMODULE_FLAGS == 0) by (bit_vector);
    }
    if let Some(flags) = entry.submodule_status {
        if !submodule_status_intersects(flags, SUBMODULE_INDEX_CHANGES) {
            return Change::Harmless;
        }
    }
    if is_conflicted(entry.status) {
        Change::Conflict
    } else if status_intersects(entry.status, INDEX_CHANGES) {
        Change::Indexed
    } else if status_intersects(entry.status, WORKTREE_CHANGES) {
        Change::Modified
    } else if is_wt_new(entry.status) {
        Change::Untracked
    } else {
        Change::Harmless
    }
}

/// What one more entry adds to those with a given meaning.
proof fn lemma_changes_push(list: Seq<StatusEntryView>, entry: StatusEntryView, kind: Change)
    ensures
        changes(list.push(entry), kind) == if change(entry) == kind {
            changes(list, kind).push(entry)
        } else {
            changes(list, kind)
        },
{
    reveal(Seq::filter);
    assert(list.push(entry).drop_last() =~= list);
}

/// Surveys the changed files of a worktree.
pub fn survey(list: &Vec<StatusEntry>) -> (survey: Survey)
    ensures
        survey.describes(entries(list@)),
{
    let mut survey = Survey { conflicts: 0, indexed: 0, modified: 0, untracked: Vec::new() };
    proof {
        reveal(Seq::filter);
        assert(entries(list@).take(0) =~= seq![]);
        assert(file_paths(survey.untracked@) =~= untracked_paths(seq![]));
    }
    let mut i: usize = 0;
    while i < list.len()
        invariant
            i <= list@.len(),
            survey.describes(entries(list@).take(i as int)),
        decreases list@.len() - i,
    {
        let ghost seen = entries(list@).take(i as int);
        let ghost entry = list@[i as int]@;
        let ghost before = survey;
        proof {
            assert(entries(list@).take(i + 1) =~= seen.push(entry));
            seen.lemma_filter_len(|e: StatusEntryView| change(e) == Change::Conflict);
            seen.lemma_filter_len(|e: StatusEntryView| change(e) == Change::Indexed);
            seen.lemma_filter_len(|e: StatusEntryView| change(e) == Change::Modified);
            lemma_changes_push(seen, entry, Change::Conflict);
            lemma_changes_push(seen, entry, Change::Indexed);
            lemma_changes_push(seen, entry, Change::Modified);
            lemma_changes_push(seen, entry, Change::Untracked);
        }
        match classify(&list[i]) {
            Change::Conflict => {
                survey.conflicts = survey.conflicts + 1;
            },
            Change::Indexed => {
                survey.indexed = survey.indexed + 1;
            },
            Change::Modified => {
                survey.modified = survey.modified + 1;
            },
            Change::Untracked => {
                survey.untracked.push(list[i].path.copy());
                proof {
                    assert(file_paths(survey.untracked@) =~= file_paths(before.untracked@).push(
                        entry.path,
                    ));
                    assert(untracked_paths(seen.push(entry)) =~= untracked_paths(seen).push(
                        entry.path,
                    ));
                }
            },
            Change::Harmless => {},
        }
        i = i + 1;
    }
    assert(entries(list@).take(i as int) =~= entries(list@));
    survey
}

/// What a changed file means for a checkout does not depend on its name.
pub proof fn law_names_do_not_matter(entry: StatusEntryView, path: FilePathView)
    ensures
        change(StatusEntryView { path, ..entry }) == change(entry),
{
}

/// A worktree is tidy exactly where a survey counts nothing.
pub proof fn law_tidy_counts_nothing(list: Seq<StatusEntryView>)
    ensures
        tidy(list) <==> (changes(list, Change::Conflict).len() == 0 && changes(
            list,
            Change::Indexed,
        ).len() == 0 && changes(list, Change::Modified).len() == 0),
    decreases list.len(),
{
    reveal(Seq::filter);
    if list.len() > 0 {
        let front = list.drop_last();
        law_tidy_counts_nothing(front);
        assert(list =~= front.push(list.last()));
        lemma_changes_push(front, list.last(), Change::Conflict);
        lemma_changes_push(front, list.last(), Change::Indexed);
        lemma_changes_push(front, list.last(), Change::Modified);
        if tidy(list) {
            assert forall|i: int| 0 <= i < front.len() implies {
                let kind = change(#[trigger] front[i]);
                kind == Change::Untracked || kind == Change::Harmless
            } by {
                assert(front[i] == list[i]);
            }
            let kind = change(list[list.len() - 1]);
            assert(kind == Change::Untracked || kind == Change::Harmless);
        } else if tidy(front) {
            let i = choose|i: int|
                0 <= i < list.len() && !{
                    let kind = change(#[trigger] list[i]);
                    kind == Change::Untracked || kind == Change::Harmless
                };
            if i < front.len() {
                assert(front[i] == list[i]);
            }
        }
    }
}

/// Whether a file is a submodule whose place in the index is as HEAD has it.
pub open spec fn is_settled_submodule(entry: StatusEntryView) -> bool {
    entry.submodule_status matches Some(flags) && flags & SUBMODULE_INDEX_CHANGES == 0
}

/// What a changed file means is told by its flags: a conflict comes before a change in the index,
/// that before a change in the worktree, and that before being untracked, whatever other flags
/// there are. Only a submodule whose place in the index is as HEAD has it is exempt.
pub proof fn law_flags_tell_the_change(entry: StatusEntryView)
    ensures
        is_settled_submodule(entry) ==> change(entry) == Change::Harmless,
        !is_settled_submodule(entry) ==> {
            let conflict = entry.status & CONFLICTED != 0;
            let index = entry.status & INDEX_CHANGES != 0;
            let worktree = entry.status & WORKTREE_CHANGES != 0;
            let new = entry.status & WT_NEW != 0;
            &&& change(entry) == Change::Conflict <==> conflict
            &&& change(entry) == Change::Indexed <==> !conflict && index
            &&& change(entry) == Change::Modified <==> !conflict && !index && worktree
            &&& change(entry) == Change::Untracked <==> !conflict && !index && !worktree && new
            &&& change(entry) == Change::Harmless <==> !conflict && !index && !worktree && !new
        },
{
}

/// A worktree is tidy exactly where no file but a settled submodule has a flag of a conflict, of
/// the index or of the worktree.
pub proof fn law_flags_tell_what_is_tidy(list: Seq<StatusEntryView>)
    ensures
        tidy(list) <==> forall|i: int|
            0 <= i < list.len() ==> is_settled_submodule(#[trigger] list[i]) || (list[i].status
                & CONFLICTED == 0 && list[i].status & INDEX_CHANGES == 0 && list[i].status
                & WORKTREE_CHANGES == 0),
{
    assert forall|i: int| 0 <= i < list.len() implies {
        let kind = change(#[trigger] list[i]);
        (kind == Change::Untracked || kind == Change::Harmless) <==> is_settled_submodule(list[i])
            || (list[i].status & CONFLICTED == 0 && list[i].status & INDEX_CHANGES == 0
            && list[i].status & WORKTREE_CHANGES == 0)
    } by {
        law_flags_tell_the_change(list[i]);
    }
}

/// Each file of a list counts once, as what its change is, and each untracked one adds its path.
pub proof fn law_each_file_counts_once(
    list: Seq<StatusEntryView>,
    entry: StatusEntryView,
    kind: Change,
)
    ensures
        changes(seq![], kind).len() == 0,
        changes(list.push(entry), kind).len() == changes(list, kind).len() + if change(entry)
            == kind {
            1nat
        } else {
            0nat
        },
        untracked_paths(seq![]).len() == 0,
        untracked_paths(list.push(entry)) == if change(entry) == Change::Untracked {
            untracked_paths(list).push(entry.path)
        } else {
            untracked_paths(list)
        },
{
    reveal(Seq::filter);
    lemma_changes_push(list, entry, kind);
    lemma_changes_push(list, entry, Change::Untracked);
    if change(entry) == Change::Untracked {
        assert(untracked_paths(list.push(entry)) =~= untracked_paths(list).push(entry.path));
    }
}

/// A listed file is seen with its whole path and all of its flags.
pub proof fn law_files_are_seen_whole(list: Seq<StatusEntry>, paths: Seq<FilePath>)
    ensures
        entries(list).len() == list.len(),
        forall|i: int|
            0 <= i < list.len() ==> {
                let seen = #[trigger] entries(list)[i];
                &&& seen.path.bytes == list[i].path.bytes@
                &&& seen.path.shown == list[i].path.shown@
                &&& seen.status == list[i].status
                &&& seen.submodule_status == list[i].submodule_status
            },
        file_paths(paths).len() == paths.len(),
        forall|i: int|
            0 <= i < paths.len() ==> (#[trigger] file_paths(paths)[i]).bytes == paths[i].bytes@
                && file_paths(paths)[i].shown == paths[i].shown@,
{
}

/// A survey gives the numbers of conflicts, of changes in the index and of changes in the worktree
/// each in its own place, and the untracked files in order.
pub proof fn law_surveys_say_which_is_which(survey: Survey, list: Seq<StatusEntryView>)
    requires
        survey.describes(list),
    ensures
        survey.conflicts == changes(list, Change::Conflict).len(),
        survey.indexed == changes(list, Change::Indexed).len(),
        survey.modified == changes(list, Change::Modified).len(),
        survey.untracked@.len() == untracked_paths(list).len(),
        forall|i: int|
            0 <= i < survey.untracked@.len() ==> (#[trigger] survey.untracked@[i]).bytes@
                == untracked_paths(list)[i].bytes && survey.untracked@[i].shown@
                == untracked_paths(list)[i].shown,
{
    assert forall|i: int| 0 <= i < survey.untracked@.len() implies (
    #[trigger] survey.untracked@[i]).bytes@ == untracked_paths(list)[i].bytes
        && survey.untracked@[i].shown@ == untracked_paths(list)[i].shown by {
        assert(file_paths(survey.untracked@)[i] == survey.untracked@[i]@);
    }
}

/// What a changed file is told to be goes by its flags alone, whatever its path: a file that is not
/// a submodule stands in the way of a checkout exactly where it has a flag of a conflict, of the
/// index or of the worktree.
pub proof fn law_what_stands_in_the_way(entry: StatusEntry, kind: Change)
    requires
        call_ensures(classify, (&entry,), kind),
        entry.submodule_status is None,
    ensures
        kind == Change::Conflict <==> entry.status & 0x8000 != 0,
        kind == Change::Conflict || kind == Change::Indexed <==> entry.status & 0x8000 != 0
            || entry.status & 0x1f != 0,
        kind == Change::Conflict || kind == Change::Indexed || kind == Change::Modified
            <==> entry.status & 0x8000 != 0 || entry.status & 0x1f != 0 || entry.status & 0xf00
            != 0,
        kind == Change::Untracked ==> entry.status & 0x80 != 0,
{
    law_flags_tell_the_change(entry@);
    law_flags_by_bit();
}

} // verus!
