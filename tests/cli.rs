use cargo_review_deps::package_id::PackageId;
use cargo_review_deps::commands::{Current, Diff, DiffPlan};
use cargo_review_deps::snapshot::{diff_snapshots, extract_snapshot, ResolvedPackage};
use cargo_review_deps::workflow::UpdateDiff;

fn registry_pkg(name: &str, version: &str) -> ResolvedPackage {
    ResolvedPackage {
        name: name.to_string(),
        version: version.to_string(),
        id: format!(
            "{} {} (registry+https://github.com/rust-lang/crates.io-index)",
            name, version
        ),
        manifest_path: format!(
            "/home/u/.cargo/registry/src/github.com-1ecc6299db9ec823/{}-{}/Cargo.toml",
            name, version
        ),
    }
}

fn local_pkg(name: &str) -> ResolvedPackage {
    ResolvedPackage {
        name: name.to_string(),
        version: "0.0.0".to_string(),
        id: format!("{} 0.0.0 (path+file:///tmp/temp-project)", name),
        manifest_path: "/tmp/temp-project/Cargo.toml".to_string(),
    }
}

fn id(text: &str) -> PackageId {
    PackageId::parse(text).ok().unwrap()
}

#[test]
fn diff_shows_diff() {
    let diff = Diff {
        first: id("rand:0.6.0"),
        second: id("rand:0.6.1"),
        dest: None,
    };
    match diff.plan("/src/rand-0.6.0".to_string(), "/src/rand-0.6.1".to_string()) {
        DiffPlan::Compare { first, second } => {
            assert_eq!(first, "/src/rand-0.6.0");
            assert_eq!(second, "/src/rand-0.6.1");
        }
        other => panic!("unexpected plan {:?}", other),
    }
}

#[test]
fn diff_reports_error_for_invalid_package_id() {
    assert!(PackageId::parse("rand:0.6.0").is_ok());
    let err = PackageId::parse("rand-0.6.1").err().unwrap();
    assert!(err
        .message()
        .contains("invalid package specification: \"rand-0.6.1\"; expected \"name:x.y.z\""));
}

#[test]
fn diff_copies_sources_to_dest() {
    let diff = Diff {
        first: id("rand:0.6.0"),
        second: id("rand:0.6.1"),
        dest: Some("/tmp/diff-tests".to_string()),
    };
    match diff.plan("/src/rand-0.6.0".to_string(), "/src/rand-0.6.1".to_string()) {
        DiffPlan::CopyInto { dest, copies } => {
            assert_eq!(dest, "/tmp/diff-tests");
            assert_eq!(copies.len(), 2);
            assert_eq!(copies[0].src, "/src/rand-0.6.0");
            assert_eq!(copies[0].to, "rand:0.6.0");
            assert_eq!(copies[1].src, "/src/rand-0.6.1");
            assert_eq!(copies[1].to, "rand:0.6.1");
        }
        other => panic!("unexpected plan {:?}", other),
    }
}

#[test]
fn current_reports_deps() {
    let pkgs = vec![local_pkg("test-pkg"), registry_pkg("thread_local", "0.3.6")];
    let current = Current {
        dest: "/tmp/temp-project/dest".to_string(),
    };
    let result = current.copies(&pkgs).ok().unwrap();
    assert_eq!(result.skipped, vec!["test-pkg".to_string()]);
    let copies = result.copies;
    assert_eq!(copies.len(), 1);
    assert_eq!(copies[0].to, "thread_local:0.3.6");
    assert_eq!(
        copies[0].src,
        "/home/u/.cargo/registry/src/github.com-1ecc6299db9ec823/thread_local-0.3.6"
    );
    let extracted = extract_snapshot(&pkgs).ok().unwrap();
    assert_eq!(extracted.skipped, vec!["test-pkg".to_string()]);
}

#[test]
fn update_diff_dumps_changed_crates() {
    let before = vec![local_pkg("test-pkg"), registry_pkg("thread_local", "0.3.3")];
    let after = vec![local_pkg("test-pkg"), registry_pkg("thread_local", "0.3.4")];
    let before = extract_snapshot(&before).ok().unwrap();
    let after = extract_snapshot(&after).ok().unwrap();
    assert_eq!(before.skipped, vec!["test-pkg".to_string()]);
    let diffs = diff_snapshots(&before.snapshot, &after.snapshot);
    assert_eq!(diffs.len(), 1);
    assert_eq!(diffs[0].name, "thread_local:0.3");
    let update = UpdateDiff {
        dest: Some("/tmp/temp-project/dest".to_string()),
    };
    assert!(!update.needs_scratch());
    let m = update.materialize(&diffs, String::new());
    assert_eq!(m.root, "/tmp/temp-project/dest");
    assert!(!m.compare);
    let targets: Vec<&str> = m.copies.iter().map(|c| c.to.as_str()).collect();
    assert_eq!(targets, vec!["before/thread_local:0.3", "after/thread_local:0.3"]);
    assert!(m.copies[0].src.ends_with("thread_local-0.3.3"));
    assert!(m.copies[1].src.ends_with("thread_local-0.3.4"));
}
