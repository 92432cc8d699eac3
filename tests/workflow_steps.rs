use cargo_review_deps::commands::{comparison_failure, find_package_dir, FetchError};
use cargo_review_deps::package_id::PackageId;
use cargo_review_deps::snapshot::{PackageDiff, ResolvedPackage};
use cargo_review_deps::workflow::{Action, Outcome, Stage, UpdateDiff, UpdateRun, WorkflowError};

fn reg(name: &str, version: &str, manifest: &str) -> ResolvedPackage {
    ResolvedPackage {
        name: name.to_string(),
        version: version.to_string(),
        id: format!("{} {} (registry+https://github.com/rust-lang/crates.io-index)", name, version),
        manifest_path: manifest.to_string(),
    }
}

#[test]
fn successful_run_visits_every_stage_and_restores() {
    let (mut run, first) = UpdateRun::start();
    assert!(matches!(first, Action::TakeSnapshot));
    assert!(matches!(run.next(Outcome::Succeeded), Action::AcquireLock));
    assert!(matches!(run.next(Outcome::Succeeded), Action::RunUpdate));
    assert!(matches!(
        run.next(Outcome::UpdateExited { success: true }),
        Action::TakeSnapshot
    ));
    assert_eq!(run.stage(), Stage::Updated);
    assert!(matches!(run.next(Outcome::Succeeded), Action::Materialize));
    assert_eq!(run.stage(), Stage::SnapshotTaken2);
    assert!(matches!(run.next(Outcome::Succeeded), Action::RestoreLock));
    assert!(!run.is_finished());
    assert!(matches!(run.next(Outcome::Succeeded), Action::Finish(Ok(()))));
    assert!(run.is_finished());
    assert_eq!(run.stage(), Stage::Restored);
}

#[test]
fn failed_update_restores_then_reports_external_failure() {
    let (mut run, _) = UpdateRun::start();
    run.next(Outcome::Succeeded);
    run.next(Outcome::Succeeded);
    assert!(matches!(
        run.next(Outcome::UpdateExited { success: false }),
        Action::RestoreLock
    ));
    assert_eq!(run.stage(), Stage::LockAcquired);
    match run.next(Outcome::Succeeded) {
        Action::Finish(Err(e)) => {
            assert!(matches!(e, WorkflowError::ExternalCommandFailed));
            assert_eq!(e.message(), "running cargo update failed");
        }
        other => panic!("unexpected {:?}", other),
    }
    assert!(run.is_finished());
}

#[test]
fn failure_before_lock_finishes_at_once() {
    let (mut run, _) = UpdateRun::start();
    let err = WorkflowError::StepFailed {
        message: "cargo metadata failed".to_string(),
    };
    match run.next(Outcome::Failed(err)) {
        Action::Finish(Err(WorkflowError::StepFailed { message })) => {
            assert_eq!(message, "cargo metadata failed")
        }
        other => panic!("unexpected {:?}", other),
    }
    assert!(run.is_finished());
}

#[test]
fn failure_after_lock_restores_first() {
    let (mut run, _) = UpdateRun::start();
    run.next(Outcome::Succeeded);
    run.next(Outcome::Succeeded);
    run.next(Outcome::UpdateExited { success: true });
    let err = WorkflowError::StepFailed {
        message: "second snapshot failed".to_string(),
    };
    assert!(matches!(run.next(Outcome::Failed(err)), Action::RestoreLock));
    assert_eq!(run.stage(), Stage::Updated);
    let restore_err = WorkflowError::StepFailed {
        message: "restore failed".to_string(),
    };
    match run.next(Outcome::Failed(restore_err)) {
        Action::Finish(Err(e)) => assert_eq!(e.message(), "second snapshot failed"),
        other => panic!("unexpected {:?}", other),
    }
}

#[test]
fn update_without_destination_compares_scratch() {
    let update = UpdateDiff {
        dest: None,
    };
    let diffs = vec![
        PackageDiff {
            name: "a:1".to_string(),
            before: Some("/a1".to_string()),
            after: None,
        },
        PackageDiff {
            name: "b:0.2".to_string(),
            before: None,
            after: Some("/b2".to_string()),
        },
    ];
    let m = update.materialize(&diffs, "/tmp/scratch".to_string());
    assert!(update.needs_scratch());
    assert_eq!(m.root, "/tmp/scratch");
    assert!(m.compare);
    assert_eq!(m.copies.len(), 2);
    assert_eq!((m.copies[0].src.as_str(), m.copies[0].to.as_str()), ("/a1", "before/a:1"));
    assert_eq!((m.copies[1].src.as_str(), m.copies[1].to.as_str()), ("/b2", "after/b:0.2"));
}

#[test]
fn fetch_finds_pinned_package() {
    let id = PackageId::parse("rand:0.6.1").ok().unwrap();
    let pkgs = vec![
        reg("rand_core", "0.3.0", "/r/rand_core-0.3.0/Cargo.toml"),
        reg("rand", "0.6.0", "/r/rand-0.6.0/Cargo.toml"),
        reg("rand", "0.6.1", "/r/rand-0.6.1/Cargo.toml"),
    ];
    assert_eq!(find_package_dir(&pkgs, &id).ok().unwrap(), "/r/rand-0.6.1");
}

#[test]
fn fetch_without_match_is_inconsistent() {
    let id = PackageId::parse("rand:0.6.1").ok().unwrap();
    let pkgs = vec![reg("rand", "0.6.0", "/r/rand-0.6.0/Cargo.toml")];
    match find_package_dir(&pkgs, &id) {
        Err(FetchError::ResolutionInconsistency { id }) => assert_eq!(id, "rand:0.6.1"),
        other => panic!("unexpected {:?}", other),
    }
    let bad = vec![reg("rand", "0.6.1", "")];
    assert!(matches!(
        find_package_dir(&bad, &id),
        Err(FetchError::NoSourceDir { .. })
    ));
}

#[test]
fn missing_comparison_tool_gives_hint() {
    assert!(comparison_failure(false, "spawn failed".to_string()).contains("--destination"));
    assert_eq!(comparison_failure(true, "spawn failed".to_string()), "spawn failed");
}
