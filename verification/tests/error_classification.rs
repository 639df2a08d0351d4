use aci_boundary::boundary::audit::AuditOutcome;
use aci_boundary::boundary::errors::BoundaryError;
use aci_boundary::boundary::manifest::ToolCapability;

// A compile-time exhaustiveness tripwire for BoundaryError variants.
fn classify_boundary_error(err: BoundaryError) -> Option<AuditOutcome> {
    match err {
        BoundaryError::AuditSystemFailure(_) => None,
        BoundaryError::PayloadLimitExceeded(_, _) => Some(AuditOutcome::ValidationDenied {
            proposed_capability: ToolCapability::ReadFile,
            reason: String::new(),
        }),
        BoundaryError::NullByteDetected => Some(AuditOutcome::ValidationDenied {
            proposed_capability: ToolCapability::ReadFile,
            reason: String::new(),
        }),
        BoundaryError::InvalidPathSpecification => Some(AuditOutcome::ValidationDenied {
            proposed_capability: ToolCapability::ReadFile,
            reason: String::new(),
        }),
        BoundaryError::SymlinkEscalation => Some(AuditOutcome::ExecutionFailed {
            error: String::new(),
        }),
        BoundaryError::MalformedProviderPayload(_) => Some(AuditOutcome::ParseDenied {
            reason: String::new(),
        }),
        BoundaryError::CapabilityProhibited(_) => Some(AuditOutcome::ValidationDenied {
            proposed_capability: ToolCapability::ReadFile,
            reason: String::new(),
        }),
        BoundaryError::InvalidTestSuiteName => Some(AuditOutcome::ValidationDenied {
            proposed_capability: ToolCapability::ExecuteCargoTests,
            reason: String::new(),
        }),
        BoundaryError::PolicyDenial(_) => Some(AuditOutcome::PolicyDenied {
            reason: String::new(),
        }),
        BoundaryError::InvalidHumanApprovalProof => Some(AuditOutcome::PolicyDenied {
            reason: String::new(),
        }),
        BoundaryError::StorageAccessError(_) => Some(AuditOutcome::ExecutionFailed {
            error: String::new(),
        }),
        BoundaryError::InvalidIdentifier(_) => Some(AuditOutcome::ValidationDenied {
            proposed_capability: ToolCapability::ReadFile,
            reason: String::new(),
        }),
        BoundaryError::InvalidCryptographicFormat(_) => Some(AuditOutcome::ValidationDenied {
            proposed_capability: ToolCapability::ReadFile,
            reason: String::new(),
        }),
    }
}

#[test]
fn test_exhaustive_error_classification() {
    let cases = vec![
        BoundaryError::PayloadLimitExceeded(0, 0),
        BoundaryError::NullByteDetected,
        BoundaryError::InvalidPathSpecification,
        BoundaryError::SymlinkEscalation,
        BoundaryError::MalformedProviderPayload("x".into()),
        BoundaryError::CapabilityProhibited("x".into()),
        BoundaryError::InvalidTestSuiteName,
        BoundaryError::PolicyDenial("x".into()),
        BoundaryError::InvalidHumanApprovalProof,
        BoundaryError::StorageAccessError("x".into()),
        BoundaryError::InvalidIdentifier("x".into()),
        BoundaryError::InvalidCryptographicFormat("x".into()),
    ];

    for err in cases {
        assert!(classify_boundary_error(err).is_some());
    }

    assert!(classify_boundary_error(BoundaryError::AuditSystemFailure("x".into())).is_none());
}

#[test]
fn error_messages_read_as_documented() {
    assert_eq!(
        BoundaryError::PayloadLimitExceeded(4097, 4096).message(),
        "Payload size threshold exceeded: 4097 bytes (max 4096)"
    );
    assert_eq!(
        BoundaryError::PayloadLimitExceeded(0, 0).message(),
        "Payload size threshold exceeded: 0 bytes (max 0)"
    );
    assert_eq!(BoundaryError::NullByteDetected.message(), "Malicious null-byte sequence detected");
    assert_eq!(
        BoundaryError::InvalidPathSpecification.message(),
        "Path specification violation: path cannot be empty, absolute, or traverse out of bounds"
    );
    assert_eq!(
        BoundaryError::SymlinkEscalation.message(),
        "Symlink escalation or breakout from workspace root detected during ancestry descent"
    );
    assert_eq!(
        BoundaryError::MalformedProviderPayload("eof".into()).message(),
        "Malformed provider output payload: eof"
    );
    assert_eq!(
        BoundaryError::CapabilityProhibited("write_file".into()).message(),
        "Capability not authorized by active scope manifest: write_file"
    );
    assert_eq!(
        BoundaryError::InvalidTestSuiteName.message(),
        "Invalid test suite target format: must be clean alphanumeric layout"
    );
    assert_eq!(
        BoundaryError::PolicyDenial("no".into()).message(),
        "Policy gate enforcement denial: no"
    );
    assert_eq!(
        BoundaryError::InvalidHumanApprovalProof.message(),
        "Cryptographic digital signature verification failed for human approval proof"
    );
    assert_eq!(
        BoundaryError::AuditSystemFailure("disk".into()).message(),
        "Mandatory audit logging system failure: disk. Failing closed."
    );
    assert_eq!(
        BoundaryError::StorageAccessError("gone".into()).message(),
        "Underlying workspace storage access error: gone"
    );
    assert_eq!(
        BoundaryError::InvalidIdentifier("bad".into()).message(),
        "Malformed input identifier wrapper string: bad"
    );
    assert_eq!(
        BoundaryError::InvalidCryptographicFormat("hex".into()).message(),
        "Malformed hex hash or signature structure: hex"
    );
}

#[test]
fn duplicated_errors_are_equal() {
    let e = BoundaryError::PolicyDenial("copy me".into());
    assert_eq!(e.duplicate(), e);
    let e = BoundaryError::PayloadLimitExceeded(7, 9);
    assert_eq!(e.duplicate(), e);
}
