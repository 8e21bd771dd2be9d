use megadvc::files::{ContentHash, FileMap};
use megadvc::hex::{hash_from_hex, hash_to_hex};
use megadvc::lock::{LocalLock, Lock, RemoteLock, Snapshot};
use megadvc::status::LockStatus;

fn s(p: &str) -> String {
    p.to_string()
}

fn h(b: u8) -> ContentHash {
    [b; 32]
}

fn sorted(mut v: Vec<String>) -> Vec<String> {
    v.sort();
    v
}

fn remote(entries: Vec<(ContentHash, String)>) -> RemoteLock {
    RemoteLock::new(0, FileMap::from_entries(&entries))
}

#[test]
fn empty_content_hash_is_blake3() {
    let m = FileMap::hashed_files(&vec![(s("/r/empty"), Vec::new())]);
    let entries = m.to_entries();
    assert_eq!(entries.len(), 1);
    assert_eq!(
        hash_to_hex(&entries[0].0),
        "af1349b9f5f9a1a6a0404dea36dcc9499bcb25c9adc112b7cc9a93cae41f3262"
    );
    assert_eq!(entries[0].1, "/r/empty");
}

#[test]
fn different_content_gives_two_entries() {
    let m = FileMap::hashed_files(&vec![(s("/r/a"), b"one".to_vec()), (s("/r/b"), b"two".to_vec())]);
    let entries = m.to_entries();
    assert_eq!(entries.len(), 2);
    assert_ne!(entries[0].0, entries[1].0);
    assert_eq!(sorted(m.paths()), vec![s("/r/a"), s("/r/b")]);
}

#[test]
fn same_content_collapses_last_wins() {
    let m = FileMap::hashed_files(&vec![(s("/r/a"), b"same".to_vec()), (s("/r/b"), b"same".to_vec())]);
    let entries = m.to_entries();
    assert_eq!(entries.len(), 1);
    assert_eq!(entries[0].1, "/r/b");
    assert_eq!(entries[0].0, *blake3::hash(b"same").as_bytes());
}

#[test]
fn diff_with_itself_is_empty() {
    let a = remote(vec![(h(1), s("/a")), (h(2), s("/b"))]);
    let b = remote(vec![(h(1), s("/a")), (h(2), s("/b"))]);
    assert!(a.moved(&b).is_empty());
    assert!(a.added(&b).is_empty());
    assert!(a.deleted(&b).is_empty());
}

#[test]
fn move_is_detected() {
    let a = remote(vec![(h(1), s("/a/x"))]);
    let b = remote(vec![(h(1), s("/a/y"))]);
    assert_eq!(b.moved(&a), vec![(s("/a/x"), s("/a/y"))]);
    assert!(b.added(&a).is_empty());
    assert!(b.deleted(&a).is_empty());
}

#[test]
fn content_change_is_add_and_delete() {
    let a = remote(vec![(h(1), s("/f"))]);
    let b = remote(vec![(h(2), s("/f"))]);
    assert_eq!(b.added(&a), vec![s("/f")]);
    assert_eq!(b.deleted(&a), vec![s("/f")]);
    assert!(b.moved(&a).is_empty());
}

#[test]
fn swap_is_two_moves() {
    let a = remote(vec![(h(1), s("/x")), (h(2), s("/y"))]);
    let b = remote(vec![(h(1), s("/y")), (h(2), s("/x"))]);
    let mut moved = b.moved(&a);
    moved.sort();
    assert_eq!(moved, vec![(s("/x"), s("/y")), (s("/y"), s("/x"))]);
}

#[test]
fn map_insert_replaces_path() {
    let mut m = FileMap::new();
    m.insert(h(7), s("/one"));
    m.insert(h(7), s("/two"));
    assert_eq!(m.get(&h(7)), Some(&s("/two")));
    assert_eq!(m.get(&h(8)), None);
    assert_eq!(m.to_entries().len(), 1);
}

#[test]
fn staging_both_ways_cancels() {
    let mut lock = LocalLock::from_path(s("/r"), &vec![]);
    assert!(lock.stage_add(s("/p")));
    assert!(lock.stage_remove(s("/p")));
    assert!(lock.staged().is_empty());
    assert!(lock.to_remove().is_empty());
}

#[test]
fn staging_twice_is_once() {
    let mut lock = LocalLock::from_path(s("/r"), &vec![]);
    assert!(lock.stage_add(s("/p")));
    assert!(!lock.stage_add(s("/p")));
    assert_eq!(lock.staged(), vec![s("/p")]);
}

#[test]
fn rescan_keeps_staging() {
    let mut lock = LocalLock::from_path(s("/r"), &vec![(s("/r/a"), b"a".to_vec())]);
    assert_eq!(lock.generation(), 0);
    lock.stage_add(s("/r/a"));
    lock.stage_remove(s("/r/gone"));
    let old = lock.update(&vec![(s("/r/a2"), b"a".to_vec()), (s("/r/b"), b"b".to_vec())]);
    assert_eq!(lock.generation(), 1);
    assert_eq!(old.generation(), 0);
    assert_eq!(lock.staged(), vec![s("/r/a")]);
    assert_eq!(lock.to_remove(), vec![s("/r/gone")]);
    assert_eq!(lock.path(), "/r");
    assert_eq!(sorted(lock.files()), vec![s("/r/a2"), s("/r/b")]);
    assert_eq!(old.files(), vec![s("/r/a")]);
    assert_eq!(lock.moved(&old), vec![(s("/r/a"), s("/r/a2"))]);
    assert_eq!(lock.added(&old), vec![s("/r/b")]);
    assert!(lock.deleted(&old).is_empty());
}

#[test]
fn status_reports_changes() {
    let old = LocalLock::from_path(s("/r"), &vec![(s("/r/a"), b"a".to_vec()), (s("/r/c"), b"c".to_vec())]);
    let mut lock = LocalLock::from_path(s("/r"), &vec![(s("/r/a"), b"a".to_vec()), (s("/r/b"), b"b".to_vec())]);
    lock.stage_add(s("/r/b"));
    let st = LockStatus::new(&old, &lock);
    assert_eq!(st.added, vec![s("/r/b")]);
    assert_eq!(st.deleted, vec![s("/r/c")]);
    assert!(st.moved.is_empty());
    assert_eq!(st.staged, vec![s("/r/b")]);
    assert!(st.to_remove.is_empty());
    assert_eq!(sorted(st.files), vec![s("/r/a"), s("/r/b")]);
}

#[test]
fn parts_round_trip() {
    let mut lock = LocalLock::from_path(s("/r"), &vec![(s("/r/a"), b"a".to_vec())]);
    lock.stage_add(s("/r/a"));
    lock.stage_remove(s("/r/z"));
    let _ = lock.update(&vec![(s("/r/a"), b"a".to_vec())]);
    let back = LocalLock::from_parts(
        lock.path().clone(),
        lock.generation(),
        &lock.added_paths(),
        &lock.removed_paths(),
        &lock.files_map().to_entries(),
    );
    assert_eq!(back.generation(), 1);
    assert_eq!(back.path(), "/r");
    assert_eq!(back.added_paths(), vec![s("/r/a")]);
    assert_eq!(back.removed_paths(), vec![s("/r/z")]);
    assert_eq!(back.files_map().to_entries(), lock.files_map().to_entries());
}

#[test]
fn hex_round_trip() {
    let mut d = [0u8; 32];
    for (i, b) in d.iter_mut().enumerate() {
        *b = (i * 8 + 3) as u8;
    }
    let text = hash_to_hex(&d);
    assert_eq!(text.len(), 64);
    assert!(text.starts_with("030b131b"));
    assert_eq!(hash_from_hex(&text), Some(d));
    assert_eq!(hash_from_hex(&text.to_uppercase()), Some(d));
}

#[test]
fn hex_rejects_bad_input() {
    assert_eq!(hash_from_hex("abc"), None);
    let mut bad = "0".repeat(63);
    bad.push('g');
    assert_eq!(hash_from_hex(&bad), None);
}
