use openrust_core::undo::UndoStore;

#[test]
fn snapshot_hash_is_sha256_of_path_nul_content() {
    assert_eq!(
        UndoStore::snapshot_hash("a.txt", "hello"),
        "83eb0df169264277633baff1a9f594717691a83c07501eb1e7fa7325c1bc0584"
    );
}

#[test]
fn test_different_content_different_hash() {
    let h1 = UndoStore::snapshot_hash("a.txt", "a");
    let h2 = UndoStore::snapshot_hash("a.txt", "b");
    assert_ne!(h1, h2);
    assert_eq!(
        UndoStore::snapshot_hash("a.txt", "hellp"),
        "8836322206a846a1b7e3b0c3e561ea4e7f79149a81e9e82195adab109f7b057b"
    );
    assert_eq!(h1.len(), 64);
}

#[test]
fn test_path_traversal_prevented() {
    let store = UndoStore::with_dir("/tmp/undo");
    assert!(store.blob_path("../etc/passwd").is_none());
    assert!(store.blob_path("foo/bar").is_none());
    assert_eq!(store.blob_path("abc"), Some("/tmp/undo/abc".to_string()));
    assert_eq!(store.blob_path("x..y"), None);
}

#[test]
fn collection_runs_every_tenth_save() {
    let mut store = UndoStore::with_dir("/tmp/undo");
    let due: Vec<bool> = (0..20).map(|_| store.count_save()).collect();
    let at: Vec<usize> = due.iter().enumerate().filter(|(_, d)| **d).map(|(i, _)| i + 1).collect();
    assert_eq!(at, vec![10, 20]);
    assert_eq!(store.dir(), "/tmp/undo");
}
