//! The flags with which git describes a changed file and the state of a submodule.
use vstd::prelude::*;

verus! {

/// The file is new in the index.
pub const INDEX_NEW: u32 = 0x1;

/// The file is modified in the index.
pub const INDEX_MODIFIED: u32 = 0x2;

/// The file is deleted in the index.
pub const INDEX_DELETED: u32 = 0x4;

/// The file is renamed in the index.
pub const INDEX_RENAMED: u32 = 0x8;

/// The type of the file is changed in the index.
pub const INDEX_TYPECHANGE: u32 = 0x10;

/// The file is untracked.
pub const WT_NEW: u32 = 0x80;

/// The file is modified in the worktree.
pub const WT_MODIFIED: u32 = 0x100;

/// The file is deleted in the worktree.
pub const WT_DELETED: u32 = 0x200;

/// The type of the file is changed in the worktree.
pub const WT_TYPECHANGE: u32 = 0x400;

/// The file is renamed in the worktree.
pub const WT_RENAMED: u32 = 0x800;

/// The file is in conflict.
pub const CONFLICTED: u32 = 0x8000;

/// Every flag that a file can have, those above and the one for ignored files.
pub const FILE_FLAGS: u32 = 0xCF9F;

/// The submodule is added to the index.
pub const SUBMODULE_INDEX_ADDED: u32 = 0x10;

/// The submodule is deleted from the index.
pub const SUBMODULE_INDEX_DELETED: u32 = 0x20;

/// The submodule is modified in the index.
pub const SUBMODULE_INDEX_MODIFIED: u32 = 0x40;

/// Every flag that a submodule can have.
pub const SUBMODULE_FLAGS: u32 = 0x3FFF;

/// The flags of a change in the index.
pub const INDEX_CHANGES: u32 = INDEX_DELETED | INDEX_MODIFIED | INDEX_NEW | INDEX_RENAMED
    | INDEX_TYPECHANGE;

/// The flags of a change of a tracked file in the worktree.
pub const WORKTREE_CHANGES: u32 = WT_DELETED | WT_MODIFIED | WT_RENAMED | WT_TYPECHANGE;

/// The flags of a change of a submodule in the index.
pub const SUBMODULE_INDEX_CHANGES: u32 = SUBMODULE_INDEX_ADDED | SUBMODULE_INDEX_DELETED
    | SUBMODULE_INDEX_MODIFIED;

/// Whether two sets of flags share one.
pub open spec fn share_a_flag(flags: u32, others: u32) -> bool {
    flags & others != 0
}

/// `git2::Status::intersects` on the sets with these bits: whether they share a flag. The bits of
/// `others` are those of flags that `git2::Status` declares, so that building the sets drops no
/// shared flag.
#[verifier::external_body]
pub(crate) fn status_intersects(status: u32, others: u32) -> (b: bool)
    requires
        others & !FILE_FLAGS == 0,
    ensures
        b == share_a_flag(status, others),
{
    git2::Status::from_bits_truncate(status).intersects(git2::Status::from_bits_truncate(others))
}

/// `git2::Status::is_conflicted` on the set with these bits: whether the file is in conflict.
#[verifier::external_body]
pub(crate) fn is_conflicted(status: u32) -> (b: bool)
    ensures
        b == share_a_flag(status, CONFLICTED),
{
    git2::Status::from_bits_truncate(status).is_conflicted()
}

/// `git2::Status::is_wt_new` on the set with these bits: whether the file is untracked.
#[verifier::external_body]
pub(crate) fn is_wt_new(status: u32) -> (b: bool)
    ensures
        b == share_a_flag(status, WT_NEW),
{
    git2::Status::from_bits_truncate(status).is_wt_new()
}

/// `git2::SubmoduleStatus::intersects` on the sets with these bits: whether they share a flag. The
/// bits of `others` are those of flags that `git2::SubmoduleStatus` declares, so that building the
/// sets drops no shared flag.
#[verifier::external_body]
pub(crate) fn submodule_status_intersects(status: u32, others: u32) -> (b: bool)
    requires
        others & !SUBMODULE_FLAGS == 0,
    ensures
        b == share_a_flag(status, others),
{
    git2::SubmoduleStatus::from_bits_truncate(status).intersects(
        git2::SubmoduleStatus::from_bits_truncate(others),
    )
}

/// The bits of the flags: those of the index are the lowest five, those of the worktree the four
/// from the ninth on, and the three of a submodule in the index from the fifth on.
pub proof fn law_flags_by_bit()
    ensures
        INDEX_CHANGES == 0x1f,
        WORKTREE_CHANGES == 0xf00,
        WT_NEW == 0x80,
        CONFLICTED == 0x8000,
        SUBMODULE_INDEX_CHANGES == 0x70,
{
    assert(INDEX_CHANGES == 0x1f) by (bit_vector);
    assert(WORKTREE_CHANGES == 0xf00) by (bit_vector);
    assert(SUBMODULE_INDEX_CHANGES == 0x70) by (bit_vector);
}

} // verus!
