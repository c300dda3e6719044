use std::collections::BTreeMap;

use csalt::config::{FileState, SaltLock};
use csalt::lock::{lock_text_is_blank, reconcile_lock};
use csalt::project::default_manifest;

#[test]
fn blank_lock_text() {
    assert!(lock_text_is_blank(""));
    assert!(lock_text_is_blank(" \n\t"));
    assert!(!lock_text_is_blank("{}"));
}

#[test]
fn missing_lock_gives_a_fresh_one() {
    let current = default_manifest("demo");
    let lock = reconcile_lock(&current, None);
    assert_eq!(lock.lock_version, "0.1.0");
    assert!(lock.files.is_empty());
    assert!(lock.manifest.same_as(&current));
}

#[test]
fn matching_lock_is_kept() {
    let current = default_manifest("demo");
    let mut files = BTreeMap::new();
    files.insert(
        "src/main.c".to_string(),
        FileState {
            shadow_hash: "abc".to_string(),
            shadow_path: ".csalt/src/main.c".to_string(),
            dependencies: Vec::new(),
        },
    );
    let mut stored_manifest = default_manifest("demo");
    stored_manifest.unit[0].src = vec!["src".to_string()];
    let stored = SaltLock {
        lock_version: "0.0.9".to_string(),
        manifest: stored_manifest,
        files,
    };
    let lock = reconcile_lock(&current, Some(stored));
    assert_eq!(lock.lock_version, "0.0.9");
    assert_eq!(lock.files.len(), 1);
}

#[test]
fn stale_lock_is_replaced() {
    let current = default_manifest("demo");
    let stored = SaltLock {
        lock_version: "0.0.9".to_string(),
        manifest: default_manifest("other"),
        files: BTreeMap::new(),
    };
    let lock = reconcile_lock(&current, Some(stored));
    assert_eq!(lock.lock_version, "0.1.0");
    assert_eq!(lock.manifest.package.name, "demo");
}

#[test]
fn reconciling_twice_keeps_the_first_result() {
    let current = default_manifest("demo");
    let stale = SaltLock {
        lock_version: "0.0.9".to_string(),
        manifest: default_manifest("other"),
        files: BTreeMap::new(),
    };
    let first = reconcile_lock(&current, Some(stale));
    let mut first_with_file = first;
    first_with_file.files.insert(
        "src/main.c".to_string(),
        FileState {
            shadow_hash: "abc".to_string(),
            shadow_path: ".csalt/src/main.c".to_string(),
            dependencies: Vec::new(),
        },
    );
    let second = reconcile_lock(&current, Some(first_with_file));
    assert_eq!(second.lock_version, "0.1.0");
    assert_eq!(second.files.len(), 1);
    assert!(second.manifest.same_as(&current));
}
