use std::collections::HashMap;

use cargo_review_deps::lock::{FileOp, LockError, LockGuard};

fn apply(fs: &mut HashMap<String, Vec<u8>>, ops: Vec<FileOp>) {
    for op in ops {
        match op {
            FileOp::Write { path, contents } => {
                fs.insert(path, contents);
            }
            FileOp::Remove { path } => {
                fs.remove(&path);
            }
        }
    }
}

#[test]
fn restore_puts_captured_bytes_back() {
    let lock = "/p/Cargo.lock".to_string();
    let saved = b"version = 1\n".to_vec();
    let mut fs = HashMap::new();
    fs.insert(lock.clone(), saved.clone());
    let (mut guard, backup) = LockGuard::acquire(lock.clone(), saved.clone()).ok().unwrap();
    let backup_path = match &backup {
        FileOp::Write { path, contents } => {
            assert_eq!(contents, &saved);
            assert_ne!(path, &lock);
            path.clone()
        }
        other => panic!("unexpected {:?}", other),
    };
    assert_eq!(backup_path, "/p/Cargo..lock.back");
    apply(&mut fs, vec![backup]);
    assert_eq!(fs[&backup_path], saved);
    // The update rewrites the lock file.
    fs.insert(lock.clone(), b"version = 2\n".to_vec());
    assert!(!guard.is_restored());
    let ops = guard.restore();
    assert_eq!(ops.len(), 2);
    apply(&mut fs, ops);
    assert_eq!(fs[&lock], saved);
    assert!(!fs.contains_key(&backup_path));
    assert!(guard.is_restored());
}

#[test]
fn second_restore_does_nothing() {
    let (mut guard, _) = LockGuard::acquire("/p/Cargo.lock".to_string(), vec![1, 2, 3])
        .ok()
        .unwrap();
    assert_eq!(guard.restore().len(), 2);
    assert!(guard.restore().is_empty());
    assert!(guard.is_restored());
    assert_eq!(guard.contents(), &vec![1, 2, 3]);
    assert_eq!(guard.lock_path(), "/p/Cargo.lock");
}

#[test]
fn lock_path_without_file_name_is_refused() {
    match LockGuard::acquire("/".to_string(), Vec::new()) {
        Err(LockError::NoBackupPath { path }) => assert_eq!(path, "/"),
        other => panic!("unexpected {:?}", other),
    }
}
