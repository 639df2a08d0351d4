use aci_boundary::boundary::errors::BoundaryError;
use aci_boundary::boundary::executor::{NarrowExecutionAdapter, RuntimeEnvironment};
use aci_boundary::boundary::types::TestSuiteName;
use aci_boundary::boundary::workspace::{HostPath, WorkspaceRoot};

fn hp(parts: &[&str]) -> HostPath {
    HostPath::from_components(parts.iter().map(|s| s.to_string()).collect())
}

fn adapter() -> NarrowExecutionAdapter {
    let ws = WorkspaceRoot::try_new(hp(&["srv", "ws"])).unwrap();
    let rt = RuntimeEnvironment::try_new(hp(&["usr", "bin", "cargo"]), true, Some(0o755)).unwrap();
    NarrowExecutionAdapter::new(ws, rt)
}

#[test]
fn runtime_tool_checks() {
    assert_eq!(RuntimeEnvironment::check_requested_path(true), Ok(()));
    assert_eq!(
        RuntimeEnvironment::check_requested_path(false),
        Err(BoundaryError::PolicyDenial("Runtime tool path must be absolute".into()))
    );
    assert_eq!(
        RuntimeEnvironment::try_new(hp(&["x"]), false, Some(0o755)).unwrap_err(),
        BoundaryError::PolicyDenial("Runtime tool path must point to a file".into())
    );
    assert_eq!(
        RuntimeEnvironment::try_new(hp(&["x"]), true, Some(0o644)).unwrap_err(),
        BoundaryError::PolicyDenial("Runtime tool path is not executable".into())
    );
    assert!(RuntimeEnvironment::try_new(hp(&["x"]), true, Some(0o100)).is_ok());
    assert!(RuntimeEnvironment::try_new(hp(&["x"]), true, None).is_ok());
    let rt = RuntimeEnvironment::try_new(hp(&["x", "y"]), true, Some(0o001)).unwrap();
    assert_eq!(rt.cargo_path().components(), &vec!["x".to_string(), "y".to_string()]);
}

#[test]
fn target_checks() {
    assert_eq!(NarrowExecutionAdapter::check_read_target(true), Ok(()));
    assert_eq!(
        NarrowExecutionAdapter::check_read_target(false),
        Err(BoundaryError::PolicyDenial(
            "ReadFile execution requires an active file target, not a directory".into()
        ))
    );
    assert_eq!(NarrowExecutionAdapter::check_write_target(false), Ok(()));
    assert_eq!(
        NarrowExecutionAdapter::check_write_target(true),
        Err(BoundaryError::PolicyDenial(
            "Write path maps directly to a pre-existing directory structure".into()
        ))
    );
}

#[test]
fn write_paths() {
    let parent = NarrowExecutionAdapter::write_parent(&hp(&["srv", "ws", "a.txt"])).unwrap();
    assert_eq!(parent.components(), &vec!["srv".to_string(), "ws".to_string()]);
    assert_eq!(
        NarrowExecutionAdapter::write_parent(&hp(&[])).unwrap_err(),
        BoundaryError::SymlinkEscalation
    );
    let tmp = NarrowExecutionAdapter::temp_file_path(&parent, "1234");
    assert_eq!(
        tmp.components(),
        &vec!["srv".to_string(), "ws".to_string(), ".tmp-aci-file-1234".to_string()]
    );
    assert_eq!(NarrowExecutionAdapter::write_confirmation(), "Storage modification write processed");
}

#[test]
fn test_command_is_narrow() {
    let a = adapter();
    let suite = TestSuiteName::try_from("unit".to_string()).unwrap();
    let cmd = a.test_command(&suite);
    assert_eq!(cmd.args, vec!["test", "--test", "unit"]);
    assert_eq!(cmd.env, vec![("PATH".to_string(), "/usr/bin:/bin".to_string())]);
    assert_eq!(cmd.program.components(), &vec!["usr".to_string(), "bin".to_string(), "cargo".to_string()]);
    assert_eq!(cmd.working_dir.components(), &vec!["srv".to_string(), "ws".to_string()]);
    assert_eq!(a.workspace().root_path().components().len(), 2);
    assert_eq!(a.runtime().cargo_path().components().len(), 3);
}

#[test]
fn fresh_scratch_files_are_uuid_named_siblings() {
    let parent = hp(&["srv", "ws", "src"]);
    let a = NarrowExecutionAdapter::fresh_temp_file_path(&parent);
    let b = NarrowExecutionAdapter::fresh_temp_file_path(&parent);
    for p in [&a, &b] {
        let comps = p.components();
        assert_eq!(comps.len(), 4);
        assert_eq!(&comps[..3], &["srv".to_string(), "ws".to_string(), "src".to_string()]);
        let name = &comps[3];
        assert!(name.starts_with(".tmp-aci-file-"));
        let id = &name[".tmp-aci-file-".len()..];
        assert_eq!(id.len(), 36);
        assert_eq!(id.as_bytes()[14], b'4');
        assert!(matches!(id.as_bytes()[19], b'8' | b'9' | b'a' | b'b'));
        for (i, ch) in id.chars().enumerate() {
            if i == 8 || i == 13 || i == 18 || i == 23 {
                assert_eq!(ch, '-');
            } else {
                assert!(ch.is_ascii_hexdigit() && !ch.is_ascii_uppercase());
            }
        }
    }
    assert_ne!(a.components()[3], b.components()[3]);
}

#[test]
fn runtime_tool_path_is_checked_before_the_host_is_asked() {
    let asked = std::cell::Cell::new(false);
    let r = RuntimeEnvironment::from_probe(false, || {
        asked.set(true);
        Ok((hp(&["usr", "bin", "cargo"]), true, Some(0o755)))
    });
    assert_eq!(
        r.unwrap_err(),
        BoundaryError::PolicyDenial("Runtime tool path must be absolute".into())
    );
    assert!(!asked.get());

    let r = RuntimeEnvironment::from_probe(true, || {
        Err(BoundaryError::StorageAccessError("Invalid runtime tool path: gone".into()))
    });
    assert_eq!(
        r.unwrap_err(),
        BoundaryError::StorageAccessError("Invalid runtime tool path: gone".into())
    );
    let r = RuntimeEnvironment::from_probe(true, || Ok((hp(&["usr", "bin", "cargo"]), false, None)));
    assert_eq!(
        r.unwrap_err(),
        BoundaryError::PolicyDenial("Runtime tool path must point to a file".into())
    );
    let env = RuntimeEnvironment::from_probe(true, || Ok((hp(&["usr", "bin", "cargo"]), true, Some(0o700))))
        .unwrap();
    assert_eq!(env.cargo_path().components(), &vec!["usr".to_string(), "bin".to_string(), "cargo".to_string()]);
}
