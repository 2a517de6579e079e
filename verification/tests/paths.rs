use checkout::paths::Paths;

fn parts(path: &str) -> Vec<Vec<u8>> {
    path.split('/').map(|part| part.as_bytes().to_vec()).collect()
}

#[test]
fn numbers_tell_paths_apart() {
    let mut paths = Paths::new();
    assert_eq!(paths.number(parts("a/b")), 0);
    assert_eq!(paths.number(parts("a")), 1);
    assert_eq!(paths.number(parts("ab")), 2);
    assert_eq!(paths.number(parts("a/c")), 3);
    assert_eq!(paths.number(Vec::new()), 4);
    for (number, path) in ["a/b", "a", "ab", "a/c"].iter().enumerate() {
        assert_eq!(paths.number(parts(path)), number);
    }
    assert_eq!(paths.number(Vec::new()), 4);
    assert_eq!(paths.number(vec![b"\xff".to_vec()]), 5);
    assert_eq!(paths.number(vec![b"\xfe".to_vec()]), 6);
}
