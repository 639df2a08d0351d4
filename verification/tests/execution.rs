use aci_boundary::boundary::errors::BoundaryError;
use aci_boundary::boundary::execution::{Execution, ExecutionAction, ExecutionEvent};
use aci_boundary::boundary::tool::ValidatedToolInvocationKind;
use aci_boundary::boundary::types::{FileContent, IsolatedPath, TestSuiteName};
use aci_boundary::boundary::workspace::HostPath;

fn hp(parts: &[&str]) -> HostPath {
    HostPath::from_components(parts.iter().map(|s| s.to_string()).collect())
}

fn parts(p: &HostPath) -> Vec<String> {
    p.components().clone()
}

fn write_kind() -> ValidatedToolInvocationKind {
    ValidatedToolInvocationKind::WriteFile {
        path: IsolatedPath::try_from("src/new.rs".to_string()).unwrap(),
        content: FileContent::try_from("fn main() {}\n".to_string()).unwrap(),
    }
}

fn finish_of(action: ExecutionAction) -> Result<String, BoundaryError> {
    match action {
        ExecutionAction::Finish(r) => r,
        other => panic!("expected the end of the run, got {:?}", other),
    }
}

/// Drives a write up to its scratch file; returns the run and the scratch path.
fn write_up_to_scratch() -> (Execution, HostPath) {
    let (run, action) = Execution::begin(write_kind());
    assert!(matches!(action, ExecutionAction::Resolve(_)));
    let (run, action) = run.step(ExecutionEvent::Resolved(Ok(hp(&["srv", "ws", "src", "new.rs"]))));
    match &action {
        ExecutionAction::CheckExists(p) => assert_eq!(parts(p), vec!["srv", "ws", "src", "new.rs"]),
        other => panic!("unexpected {:?}", other),
    }
    let (run, action) = run.step(ExecutionEvent::Checked(Ok(false)));
    match action {
        ExecutionAction::CreateNew(p) => (run, p),
        other => panic!("unexpected {:?}", other),
    }
}

#[test]
fn a_write_goes_through_a_synced_scratch_file() {
    let (run, temp) = write_up_to_scratch();
    let names = parts(&temp);
    assert_eq!(names.len(), 4);
    assert_eq!(&names[..3], &["srv", "ws", "src"]);
    assert!(names[3].starts_with(".tmp-aci-file-"));
    assert_eq!(names[3].len(), ".tmp-aci-file-".len() + 36);

    let (run, action) = run.step(ExecutionEvent::Done(Ok(())));
    match &action {
        ExecutionAction::WriteAll(text) => assert_eq!(text, "fn main() {}\n"),
        other => panic!("unexpected {:?}", other),
    }
    let (run, action) = run.step(ExecutionEvent::Done(Ok(())));
    assert!(matches!(action, ExecutionAction::Sync));
    let (run, action) = run.step(ExecutionEvent::Done(Ok(())));
    match &action {
        ExecutionAction::Rename { from, to } => {
            assert_eq!(parts(from), names);
            assert_eq!(parts(to), vec!["srv", "ws", "src", "new.rs"]);
        }
        other => panic!("unexpected {:?}", other),
    }
    let (run, action) = run.step(ExecutionEvent::Done(Ok(())));
    assert_eq!(finish_of(action), Ok("Storage modification write processed".to_string()));
    assert!(run.is_finished());
}

#[test]
fn a_failed_rename_removes_the_scratch_file() {
    let (run, temp) = write_up_to_scratch();
    let (run, _) = run.step(ExecutionEvent::Done(Ok(())));
    let (run, _) = run.step(ExecutionEvent::Done(Ok(())));
    let (run, _) = run.step(ExecutionEvent::Done(Ok(())));
    let failure = BoundaryError::StorageAccessError("rename refused".into());
    let (run, action) = run.step(ExecutionEvent::Done(Err(failure.clone())));
    match &action {
        ExecutionAction::RemoveFile(p) => assert_eq!(parts(p), parts(&temp)),
        other => panic!("unexpected {:?}", other),
    }
    let (_, action) = run.step(ExecutionEvent::Done(Err(BoundaryError::StorageAccessError(
        "already gone".into(),
    ))));
    assert_eq!(finish_of(action), Err(failure));
}

#[test]
fn a_failed_scratch_write_ends_the_run() {
    let (run, _) = write_up_to_scratch();
    let (run, _) = run.step(ExecutionEvent::Done(Ok(())));
    let failure = BoundaryError::StorageAccessError("disk full".into());
    let (run, action) = run.step(ExecutionEvent::Done(Err(failure.clone())));
    assert_eq!(finish_of(action), Err(failure));
    assert!(run.is_finished());
}

#[test]
fn a_write_over_a_directory_is_refused() {
    let (run, _) = Execution::begin(write_kind());
    let (run, _) = run.step(ExecutionEvent::Resolved(Ok(hp(&["srv", "ws", "src"]))));
    let (run, action) = run.step(ExecutionEvent::Checked(Ok(true)));
    match &action {
        ExecutionAction::CheckIsDirectory(p) => assert_eq!(parts(p), vec!["srv", "ws", "src"]),
        other => panic!("unexpected {:?}", other),
    }
    let (_, action) = run.step(ExecutionEvent::Checked(Ok(true)));
    assert_eq!(
        finish_of(action),
        Err(BoundaryError::PolicyDenial(
            "Write path maps directly to a pre-existing directory structure".into()
        ))
    );
}

#[test]
fn an_existing_file_is_replaced_through_a_scratch_file() {
    let (run, _) = Execution::begin(write_kind());
    let (run, _) = run.step(ExecutionEvent::Resolved(Ok(hp(&["srv", "ws", "a.rs"]))));
    let (run, _) = run.step(ExecutionEvent::Checked(Ok(true)));
    let (_, action) = run.step(ExecutionEvent::Checked(Ok(false)));
    match &action {
        ExecutionAction::CreateNew(p) => {
            let names = parts(p);
            assert_eq!(&names[..2], &["srv", "ws"]);
            assert!(names[2].starts_with(".tmp-aci-file-"));
        }
        other => panic!("unexpected {:?}", other),
    }
}

#[test]
fn a_write_to_the_host_root_is_refused() {
    let (run, _) = Execution::begin(write_kind());
    let (run, _) = run.step(ExecutionEvent::Resolved(Ok(hp(&[]))));
    let (_, action) = run.step(ExecutionEvent::Checked(Ok(false)));
    assert_eq!(finish_of(action), Err(BoundaryError::SymlinkEscalation));
}

#[test]
fn a_read_needs_a_regular_file() {
    let kind = ValidatedToolInvocationKind::ReadFile {
        path: IsolatedPath::try_from("src".to_string()).unwrap(),
    };
    let (run, _) = Execution::begin(kind);
    let (run, action) = run.step(ExecutionEvent::Resolved(Ok(hp(&["srv", "ws", "src"]))));
    assert!(matches!(action, ExecutionAction::CheckIsFile(_)));
    let (_, action) = run.step(ExecutionEvent::Checked(Ok(false)));
    assert_eq!(
        finish_of(action),
        Err(BoundaryError::PolicyDenial(
            "ReadFile execution requires an active file target, not a directory".into()
        ))
    );
}

#[test]
fn a_read_returns_the_file_text() {
    let kind = ValidatedToolInvocationKind::ReadFile {
        path: IsolatedPath::try_from("src/lib.rs".to_string()).unwrap(),
    };
    let (run, _) = Execution::begin(kind);
    let (run, _) = run.step(ExecutionEvent::Resolved(Ok(hp(&["srv", "ws", "src", "lib.rs"]))));
    let (run, action) = run.step(ExecutionEvent::Checked(Ok(true)));
    match &action {
        ExecutionAction::ReadFile(p) => assert_eq!(parts(p), vec!["srv", "ws", "src", "lib.rs"]),
        other => panic!("unexpected {:?}", other),
    }
    let (_, action) = run.step(ExecutionEvent::Output(Ok("pub fn f() {}".into())));
    assert_eq!(finish_of(action), Ok("pub fn f() {}".to_string()));
}

#[test]
fn a_resolution_failure_ends_the_run() {
    let kind = ValidatedToolInvocationKind::ReadFile {
        path: IsolatedPath::try_from("link/x".to_string()).unwrap(),
    };
    let (run, _) = Execution::begin(kind);
    let event = ExecutionEvent::Resolved(Err(BoundaryError::SymlinkEscalation));
    assert!(run.accepts(&event));
    assert!(!run.accepts(&ExecutionEvent::Done(Ok(()))));
    let (run, action) = run.step(event);
    assert_eq!(finish_of(action), Err(BoundaryError::SymlinkEscalation));
    assert!(!run.accepts(&ExecutionEvent::Done(Ok(()))));
}

#[test]
fn a_test_run_reports_what_it_printed() {
    let kind = ValidatedToolInvocationKind::RunTests {
        test_suite: TestSuiteName::try_from("unit".to_string()).unwrap(),
    };
    let (run, action) = Execution::begin(kind);
    match &action {
        ExecutionAction::RunTests(s) => assert_eq!(s.as_str(), "unit"),
        other => panic!("unexpected {:?}", other),
    }
    let (_, action) = run.step(ExecutionEvent::Output(Ok("test result: ok".into())));
    assert_eq!(finish_of(action), Ok("test result: ok".to_string()));
}
