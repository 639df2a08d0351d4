use aci_boundary::boundary::errors::BoundaryError;
use aci_boundary::boundary::types::IsolatedPath;
use aci_boundary::boundary::workspace::{
    AnchorAction, AnchorEvent, AnchorResolution, HostPath, LinkTarget, WorkspaceRoot,
};

fn hp(parts: &[&str]) -> HostPath {
    HostPath::from_components(parts.iter().map(|s| s.to_string()).collect())
}

fn parts(p: &HostPath) -> Vec<String> {
    p.components().clone()
}

fn root() -> WorkspaceRoot {
    WorkspaceRoot::try_new(hp(&["home", "ws"])).unwrap()
}

fn expect(action: &AnchorAction, kind: &str, path: &[&str]) {
    let (k, p) = match action {
        AnchorAction::Probe(p) => ("probe", p),
        AnchorAction::ReadLink(p) => ("readlink", p),
        AnchorAction::Canonicalize(p) => ("canonicalize", p),
        AnchorAction::CheckExists(p) => ("exists", p),
        AnchorAction::Done(_) => panic!("resolution ended early"),
    };
    assert_eq!(k, kind);
    assert_eq!(parts(p), path.iter().map(|s| s.to_string()).collect::<Vec<_>>());
}

fn feed(state: AnchorResolution, event: AnchorEvent) -> (AnchorResolution, AnchorAction) {
    assert!(state.accepts(&event));
    state.step(event)
}

#[test]
fn root_must_be_canonical() {
    assert!(WorkspaceRoot::try_new(hp(&["a", "b"])).is_ok());
    assert_eq!(
        WorkspaceRoot::try_new(hp(&["a", "..", "b"])).unwrap_err(),
        BoundaryError::InvalidPathSpecification
    );
    assert_eq!(WorkspaceRoot::try_new(hp(&["a", ""])).unwrap_err(), BoundaryError::InvalidPathSpecification);
    assert_eq!(parts(root().root_path()), vec!["home", "ws"]);
}

#[test]
fn plain_files_resolve_under_the_root() {
    let ws = root();
    let rel = IsolatedPath::try_from("a/b.txt".to_string()).unwrap();
    let (s, a) = ws.begin_resolution(&rel);
    expect(&a, "probe", &["home", "ws", "a"]);
    assert!(!s.accepts(&AnchorEvent::Exists(true)));
    let (s, a) = feed(s, AnchorEvent::EntryIsNotSymlink);
    expect(&a, "probe", &["home", "ws", "a", "b.txt"]);
    let (s, a) = feed(s, AnchorEvent::EntryIsNotSymlink);
    expect(&a, "exists", &["home", "ws", "a", "b.txt"]);
    let (s, a) = feed(s, AnchorEvent::Exists(true));
    expect(&a, "canonicalize", &["home", "ws", "a", "b.txt"]);
    let (_, a) = feed(s, AnchorEvent::Canonicalized(hp(&["home", "ws", "a", "b.txt"])));
    match a {
        AnchorAction::Done(Ok(p)) => assert_eq!(parts(&p), vec!["home", "ws", "a", "b.txt"]),
        _ => panic!("expected success"),
    }
}

#[test]
fn missing_entries_resolve_without_final_check() {
    let ws = root();
    let rel = IsolatedPath::try_from("new/file".to_string()).unwrap();
    let (s, _) = ws.begin_resolution(&rel);
    let (s, _) = feed(s, AnchorEvent::EntryMissing);
    let (s, _) = feed(s, AnchorEvent::EntryMissing);
    let (_, a) = feed(s, AnchorEvent::Exists(false));
    match a {
        AnchorAction::Done(Ok(p)) => assert_eq!(parts(&p), vec!["home", "ws", "new", "file"]),
        _ => panic!("expected success"),
    }
}

#[test]
fn symlink_out_of_the_root_is_refused() {
    let ws = root();
    let rel = IsolatedPath::try_from("link/secret".to_string()).unwrap();
    let (s, _) = ws.begin_resolution(&rel);
    let (s, a) = feed(s, AnchorEvent::EntryIsSymlink);
    expect(&a, "readlink", &["home", "ws", "link"]);
    let (s, a) = feed(
        s,
        AnchorEvent::LinkRead(LinkTarget { absolute: true, components: vec!["etc".into()] }),
    );
    expect(&a, "canonicalize", &["etc"]);
    let (_, a) = feed(s, AnchorEvent::Canonicalized(hp(&["etc"])));
    assert!(matches!(a, AnchorAction::Done(Err(BoundaryError::SymlinkEscalation))));
}

#[test]
fn relative_symlink_inside_the_root_is_followed() {
    let ws = root();
    let rel = IsolatedPath::try_from("link/x".to_string()).unwrap();
    let (s, _) = ws.begin_resolution(&rel);
    let (s, _) = feed(s, AnchorEvent::EntryIsSymlink);
    let (s, a) = feed(
        s,
        AnchorEvent::LinkRead(LinkTarget {
            absolute: false,
            components: vec!["..".into(), "ws".into(), "inner".into()],
        }),
    );
    expect(&a, "canonicalize", &["home", "ws", "..", "ws", "inner"]);
    let (s, a) = feed(s, AnchorEvent::Canonicalized(hp(&["home", "ws", "inner"])));
    expect(&a, "probe", &["home", "ws", "inner", "x"]);
    let (s, _) = feed(s, AnchorEvent::EntryMissing);
    let (_, a) = feed(s, AnchorEvent::Exists(false));
    match a {
        AnchorAction::Done(Ok(p)) => assert_eq!(parts(&p), vec!["home", "ws", "inner", "x"]),
        _ => panic!("expected success"),
    }
}

#[test]
fn failures_end_the_walk() {
    let ws = root();
    let rel = IsolatedPath::try_from("a".to_string()).unwrap();
    let (s, _) = ws.begin_resolution(&rel);
    let (_, a) = feed(s, AnchorEvent::ProbeFailed("permission denied".into()));
    assert!(matches!(a, AnchorAction::Done(Err(BoundaryError::StorageAccessError(m))) if m == "permission denied"));

    let (s, _) = ws.begin_resolution(&rel);
    let (s, _) = feed(s, AnchorEvent::EntryIsSymlink);
    let (_, a) = feed(s, AnchorEvent::LinkReadFailed("io".into()));
    assert!(matches!(a, AnchorAction::Done(Err(BoundaryError::StorageAccessError(m))) if m == "io"));

    let (s, _) = ws.begin_resolution(&rel);
    let (s, _) = feed(s, AnchorEvent::EntryIsSymlink);
    let (s, _) = feed(s, AnchorEvent::LinkRead(LinkTarget { absolute: false, components: vec!["gone".into()] }));
    let (_, a) = feed(s, AnchorEvent::CanonicalizeFailed);
    assert!(matches!(a, AnchorAction::Done(Err(BoundaryError::SymlinkEscalation))));

    // The final check refuses a result whose canonical form left the root.
    let (s, _) = ws.begin_resolution(&rel);
    let (s, _) = feed(s, AnchorEvent::EntryIsNotSymlink);
    let (s, _) = feed(s, AnchorEvent::Exists(true));
    let (_, a) = feed(s, AnchorEvent::Canonicalized(hp(&["home", "other"])));
    assert!(matches!(a, AnchorAction::Done(Err(BoundaryError::SymlinkEscalation))));
}

#[test]
fn host_path_prefixes() {
    assert!(hp(&["a", "b"]).starts_with(&hp(&["a"])));
    assert!(hp(&["a"]).starts_with(&hp(&[])));
    assert!(!hp(&["ab"]).starts_with(&hp(&["a"])));
    assert!(!hp(&["a"]).starts_with(&hp(&["a", "b"])));
    assert_eq!(parts(&hp(&["x", "y"]).duplicate()), vec!["x", "y"]);
}
