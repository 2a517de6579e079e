use checkout::flags;
use checkout::status::{classify, survey, Change, FilePath, StatusEntry};

fn entry(path: &str, status: u32) -> StatusEntry {
    named(path.as_bytes(), status)
}

fn named(path: &[u8], status: u32) -> StatusEntry {
    StatusEntry {
        path: FilePath {
            bytes: path.to_vec(),
            shown: String::from_utf8_lossy(path).into_owned(),
        },
        status,
        submodule_status: None,
    }
}

/// The paths as git has them.
fn bytes(paths: &[FilePath]) -> Vec<Vec<u8>> {
    paths.iter().map(|path| path.bytes.clone()).collect()
}

#[test]
fn changes_are_told_apart() {
    for (status, change) in [
        (flags::CONFLICTED, Change::Conflict),
        (flags::CONFLICTED | flags::INDEX_NEW | flags::WT_MODIFIED, Change::Conflict),
        (flags::INDEX_NEW, Change::Indexed),
        (flags::INDEX_MODIFIED, Change::Indexed),
        (flags::INDEX_DELETED, Change::Indexed),
        (flags::INDEX_RENAMED, Change::Indexed),
        (flags::INDEX_TYPECHANGE | flags::WT_DELETED, Change::Indexed),
        (flags::WT_MODIFIED, Change::Modified),
        (flags::WT_DELETED, Change::Modified),
        (flags::WT_TYPECHANGE, Change::Modified),
        (flags::WT_RENAMED, Change::Modified),
        (flags::WT_NEW, Change::Untracked),
        (git2::Status::IGNORED.bits(), Change::Harmless),
        (0, Change::Harmless),
        (0x1000, Change::Harmless),
    ] {
        assert_eq!(classify(&entry("f", status)), change, "{:x}", status);
    }
}

#[test]
fn paths_that_are_not_unicode_matter_too() {
    let path = b"caf\xe9.txt";
    assert_eq!(classify(&named(path, flags::CONFLICTED)), Change::Conflict);
    assert_eq!(classify(&named(path, flags::INDEX_MODIFIED)), Change::Indexed);
    assert_eq!(classify(&named(path, flags::WT_MODIFIED)), Change::Modified);
    assert_eq!(classify(&named(path, flags::WT_NEW)), Change::Untracked);
    assert_eq!(classify(&named(path, 0)), Change::Harmless);
}

#[test]
fn submodules_at_another_commit_do_not_matter() {
    let mut nested = entry("nested", flags::WT_MODIFIED);
    nested.submodule_status = Some(git2::SubmoduleStatus::WD_MODIFIED.bits());
    assert_eq!(classify(&nested), Change::Harmless);
    nested.submodule_status = Some(0);
    assert_eq!(classify(&nested), Change::Harmless);
}

#[test]
fn submodules_changed_in_the_index_matter() {
    let mut nested = entry("nested", flags::INDEX_NEW);
    for status in [
        flags::SUBMODULE_INDEX_ADDED,
        flags::SUBMODULE_INDEX_DELETED,
        flags::SUBMODULE_INDEX_MODIFIED,
    ] {
        nested.submodule_status = Some(status | git2::SubmoduleStatus::WD_MODIFIED.bits());
        assert_eq!(classify(&nested), Change::Indexed);
    }
}

#[test]
fn surveys_count_changes() {
    let list = vec![
        entry("a", flags::WT_NEW),
        entry("b", flags::WT_MODIFIED),
        entry("c", flags::CONFLICTED),
        named(b"\xff", flags::WT_NEW),
        entry("e", flags::INDEX_NEW),
        entry("f", flags::WT_DELETED),
    ];
    let survey = survey(&list);
    assert_eq!(survey.conflicts, 1);
    assert_eq!(survey.indexed, 1);
    assert_eq!(survey.modified, 2);
    assert_eq!(bytes(&survey.untracked), vec![b"a".to_vec(), b"\xff".to_vec()]);
    assert_eq!(survey.untracked[1].shown, "\u{fffd}");
}

#[test]
fn tidy_worktrees_count_nothing() {
    let survey = survey(&vec![entry("a", flags::WT_NEW), entry("b", 0)]);
    assert_eq!((survey.conflicts, survey.indexed, survey.modified), (0, 0, 0));
    assert_eq!(bytes(&survey.untracked), vec![b"a".to_vec()]);
}
