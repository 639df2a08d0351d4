use aci_boundary::boundary::errors::BoundaryError;
use aci_boundary::boundary::identifiers::{
    ActorId, ApprovalId, ApprovalIssuerId, ApprovalSignature, InvocationHash, ManifestHash,
    ManifestId, SessionId, TicketReference,
};

#[test]
fn bounded_identifiers_accept_their_alphabet() {
    assert_eq!(SessionId::try_from("sess_01-A".to_string()).unwrap().as_str(), "sess_01-A");
    assert_eq!(ManifestId::try_from("m".to_string()).unwrap().as_str(), "m");
    assert!(ApprovalId::try_from("a".repeat(64)).is_ok());
    assert!(ApprovalIssuerId::try_from("issuer-1".to_string()).is_ok());
    assert!(ActorId::try_from("alice.smith@example.com".to_string()).is_ok());
    assert!(TicketReference::try_from("JIRA:OPS/123".to_string()).is_ok());
}

#[test]
fn bounded_identifiers_refuse_bad_input() {
    assert_eq!(
        SessionId::try_from(String::new()),
        Err(BoundaryError::InvalidIdentifier("Invalid SessionId format".into()))
    );
    assert_eq!(
        ApprovalId::try_from("a".repeat(65)),
        Err(BoundaryError::InvalidIdentifier("Invalid ApprovalId format".into()))
    );
    assert_eq!(
        ManifestId::try_from("has space".to_string()),
        Err(BoundaryError::InvalidIdentifier("Invalid ManifestId format".into()))
    );
    assert!(SessionId::try_from("a@b".to_string()).is_err());
    assert!(ActorId::try_from("a".repeat(129)).is_err());
    assert!(ActorId::try_from("a".repeat(128)).is_ok());
    assert!(TicketReference::try_from("x@y".to_string()).is_err());
    assert!(ApprovalIssuerId::try_from("é".to_string()).is_err());
}

#[test]
fn hex_identifiers_need_exact_length() {
    let h = "aB".repeat(32);
    assert_eq!(ManifestHash::try_from(h.clone()).unwrap().as_str(), h);
    assert_eq!(
        ManifestHash::try_from("ab".to_string()),
        Err(BoundaryError::InvalidCryptographicFormat(
            "ManifestHash must be exactly 64 hex characters".into()
        ))
    );
    assert_eq!(
        InvocationHash::try_from("g".repeat(64)),
        Err(BoundaryError::InvalidCryptographicFormat(
            "InvocationHash must be exactly 64 hex characters".into()
        ))
    );
    assert!(ApprovalSignature::try_from("0".repeat(128)).is_ok());
    assert_eq!(
        ApprovalSignature::try_from("0".repeat(127)),
        Err(BoundaryError::InvalidCryptographicFormat(
            "ApprovalSignature must be exactly 128 hex characters".into()
        ))
    );
}

#[test]
fn identifiers_compare_by_text_and_clone_faithfully() {
    let a = SessionId::try_from("s1".to_string()).unwrap();
    let b = SessionId::try_from("s1".to_string()).unwrap();
    let c = SessionId::try_from("s2".to_string()).unwrap();
    assert!(a == b);
    assert!(a != c);
    assert!(a.clone() == a);
}
