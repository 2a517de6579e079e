use checkout::flags;

#[test]
fn libgit_correctly_compiled() {
    let version = git2::Version::get();
    assert!(version.https());
    assert!(version.ssh());
    assert!(version.threads());
}

#[test]
fn file_flags_are_those_of_git() {
    assert_eq!(flags::INDEX_NEW, git2::Status::INDEX_NEW.bits());
    assert_eq!(flags::INDEX_MODIFIED, git2::Status::INDEX_MODIFIED.bits());
    assert_eq!(flags::INDEX_DELETED, git2::Status::INDEX_DELETED.bits());
    assert_eq!(flags::INDEX_RENAMED, git2::Status::INDEX_RENAMED.bits());
    assert_eq!(flags::INDEX_TYPECHANGE, git2::Status::INDEX_TYPECHANGE.bits());
    assert_eq!(flags::WT_NEW, git2::Status::WT_NEW.bits());
    assert_eq!(flags::WT_MODIFIED, git2::Status::WT_MODIFIED.bits());
    assert_eq!(flags::WT_DELETED, git2::Status::WT_DELETED.bits());
    assert_eq!(flags::WT_TYPECHANGE, git2::Status::WT_TYPECHANGE.bits());
    assert_eq!(flags::WT_RENAMED, git2::Status::WT_RENAMED.bits());
    assert_eq!(flags::CONFLICTED, git2::Status::CONFLICTED.bits());
    assert_eq!(flags::FILE_FLAGS, git2::Status::all().bits());
}

#[test]
fn submodule_flags_are_those_of_git() {
    assert_eq!(flags::SUBMODULE_INDEX_ADDED, git2::SubmoduleStatus::INDEX_ADDED.bits());
    assert_eq!(flags::SUBMODULE_INDEX_DELETED, git2::SubmoduleStatus::INDEX_DELETED.bits());
    assert_eq!(flags::SUBMODULE_INDEX_MODIFIED, git2::SubmoduleStatus::INDEX_MODIFIED.bits());
    assert_eq!(flags::SUBMODULE_FLAGS, git2::SubmoduleStatus::all().bits());
}

#[test]
fn masks_gather_their_flags() {
    assert_eq!(flags::INDEX_CHANGES, 0x1f);
    assert_eq!(flags::WORKTREE_CHANGES, 0xf00);
    assert_eq!(flags::SUBMODULE_INDEX_CHANGES, 0x70);
}
