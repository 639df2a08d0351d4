use aci_boundary::boundary::errors::BoundaryError;
use aci_boundary::boundary::identifiers::ManifestId;
use aci_boundary::boundary::llm::{RawOutputParser, RawToolProposal};
use aci_boundary::boundary::manifest::{Environment, PathScope, ScopeManifest, ToolCapability};
use aci_boundary::boundary::tool::{ValidatedToolInvocation, ValidatedToolInvocationKind};
use aci_boundary::boundary::types::IsolatedPath;

fn path(raw: &str) -> IsolatedPath {
    IsolatedPath::try_from(raw.to_string()).unwrap()
}

fn dev_manifest(caps: Vec<ToolCapability>) -> ScopeManifest {
    ScopeManifest {
        manifest_id: ManifestId::try_from("dev".to_string()).unwrap(),
        environment: Environment::Development,
        allowed_capabilities: caps,
        read_scopes: vec![PathScope::DirectoryTree(path("src"))],
        write_scopes: vec![PathScope::ExactFile(path("src/new.rs"))],
        step_budget: 5,
    }
}

fn all_caps() -> Vec<ToolCapability> {
    vec![ToolCapability::ReadFile, ToolCapability::WriteFile, ToolCapability::ExecuteCargoTests]
}

#[test]
fn proposed_capabilities() {
    assert_eq!(
        RawToolProposal::ReadFile { path: "x".into() }.proposed_capability(),
        ToolCapability::ReadFile
    );
    assert_eq!(
        RawToolProposal::WriteFile { path: "x".into(), content: "y".into() }.proposed_capability(),
        ToolCapability::WriteFile
    );
    assert_eq!(
        RawToolProposal::RunTests { test_suite: "t".into() }.proposed_capability(),
        ToolCapability::ExecuteCargoTests
    );
}

#[test]
fn parser_bounds_payload_and_classifies_decoder_errors() {
    let big = vec![b' '; 524289];
    assert_eq!(
        RawOutputParser::check_payload_limit(&big),
        Err(BoundaryError::PayloadLimitExceeded(524289, 524288))
    );
    assert!(RawOutputParser::check_payload_limit(&vec![b' '; 524288]).is_ok());
    let r = RawOutputParser::parse(&big, Ok(RawToolProposal::ReadFile { path: "a".into() }));
    assert_eq!(r.unwrap_err(), BoundaryError::PayloadLimitExceeded(524289, 524288));
    let r = RawOutputParser::parse(b"{", Err("EOF while parsing".into()));
    assert_eq!(r.unwrap_err(), BoundaryError::MalformedProviderPayload("EOF while parsing".into()));
    let r = RawOutputParser::parse(b"{}", Ok(RawToolProposal::RunTests { test_suite: "u".into() }));
    assert!(matches!(r, Ok(RawToolProposal::RunTests { .. })));
}

#[test]
fn read_inside_scope_is_validated_with_its_digest() {
    let m = dev_manifest(all_caps());
    let inv = ValidatedToolInvocation::try_from_proposal(
        RawToolProposal::ReadFile { path: "./src//lib.rs".into() },
        &m,
    )
    .unwrap();
    assert_eq!(inv.capability(), ToolCapability::ReadFile);
    assert_eq!(
        inv.invocation_hash().as_str(),
        "7e28f94b0d3c97f6f39d41f3bb0f3b4c1f21451d7686d0376fe5a852f9142538"
    );
    match inv.kind() {
        ValidatedToolInvocationKind::ReadFile { path } => assert_eq!(path.as_path(), "src/lib.rs"),
        _ => panic!("wrong kind"),
    }
}

#[test]
fn write_and_test_digests() {
    let m = dev_manifest(all_caps());
    let inv = ValidatedToolInvocation::try_from_proposal(
        RawToolProposal::WriteFile { path: "src/new.rs".into(), content: "fn main() {}\n".into() },
        &m,
    )
    .unwrap();
    assert_eq!(inv.capability(), ToolCapability::WriteFile);
    assert_eq!(
        inv.invocation_hash().as_str(),
        "aa1e8678753924af30492b7dd509b2c3aec5be44a95da6b8ba12d6ab729d0b44"
    );
    let inv = ValidatedToolInvocation::try_from_proposal(
        RawToolProposal::RunTests { test_suite: "unit".into() },
        &m,
    )
    .unwrap();
    assert_eq!(inv.capability(), ToolCapability::ExecuteCargoTests);
    assert_eq!(
        inv.invocation_hash().as_str(),
        "93aa9f4ec3a7669f14c4cc2e8aaf283872c1b545ed897d9b79e039aa4aa7028c"
    );
    match inv.into_kind() {
        ValidatedToolInvocationKind::RunTests { test_suite } => assert_eq!(test_suite.as_str(), "unit"),
        _ => panic!("wrong kind"),
    }
}

#[test]
fn refusals() {
    let m = dev_manifest(vec![ToolCapability::ReadFile, ToolCapability::WriteFile]);
    let err = |p: RawToolProposal| ValidatedToolInvocation::try_from_proposal(p, &m).unwrap_err();
    assert_eq!(
        err(RawToolProposal::RunTests { test_suite: "unit".into() }),
        BoundaryError::CapabilityProhibited("execute_cargo_tests".into())
    );
    assert_eq!(
        err(RawToolProposal::ReadFile { path: "../etc/passwd".into() }),
        BoundaryError::InvalidPathSpecification
    );
    assert_eq!(
        err(RawToolProposal::ReadFile { path: "src".into() }),
        BoundaryError::PolicyDenial("Read target unauthorized by path-scope checks".into())
    );
    assert_eq!(
        err(RawToolProposal::ReadFile { path: "docs/a.md".into() }),
        BoundaryError::PolicyDenial("Read target unauthorized by path-scope checks".into())
    );
    assert_eq!(
        err(RawToolProposal::WriteFile { path: "src/other.rs".into(), content: "x".into() }),
        BoundaryError::PolicyDenial("Write target unauthorized by path-scope checks".into())
    );
    assert_eq!(
        err(RawToolProposal::WriteFile { path: "src/new.rs".into(), content: "a\0b".into() }),
        BoundaryError::NullByteDetected
    );
    // Content is screened before the write scope is consulted.
    assert_eq!(
        err(RawToolProposal::WriteFile { path: "elsewhere".into(), content: "a\0b".into() }),
        BoundaryError::NullByteDetected
    );
    let m2 = dev_manifest(all_caps());
    assert_eq!(
        ValidatedToolInvocation::try_from_proposal(
            RawToolProposal::RunTests { test_suite: "--nocapture".into() },
            &m2
        )
        .unwrap_err(),
        BoundaryError::InvalidTestSuiteName
    );
}

#[test]
fn different_invocations_have_different_digests() {
    let m = dev_manifest(all_caps());
    let hash = |p: RawToolProposal| {
        ValidatedToolInvocation::try_from_proposal(p, &m).unwrap().invocation_hash().as_str().to_string()
    };
    let w1 = hash(RawToolProposal::WriteFile { path: "src/new.rs".into(), content: "a".into() });
    let w2 = hash(RawToolProposal::WriteFile { path: "src/new.rs".into(), content: "b".into() });
    let w3 = hash(RawToolProposal::WriteFile { path: "./src//new.rs".into(), content: "a".into() });
    assert_ne!(w1, w2);
    assert_eq!(w1, w3);
    let r1 = hash(RawToolProposal::ReadFile { path: "src/a.rs".into() });
    let r2 = hash(RawToolProposal::ReadFile { path: "src/b.rs".into() });
    let r3 = hash(RawToolProposal::ReadFile { path: "src/a\".rs".into() });
    assert_ne!(r1, r2);
    assert_ne!(r1, r3);
    let t1 = hash(RawToolProposal::RunTests { test_suite: "unit".into() });
    let t2 = hash(RawToolProposal::RunTests { test_suite: "integration".into() });
    assert_ne!(t1, t2);
}
