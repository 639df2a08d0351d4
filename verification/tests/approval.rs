use aci_boundary::boundary::approval::{
    check_claims, check_signature, signature_bytes, ApprovalKeyring, ApprovalVerificationContext, ApprovalVerifier,
    Ed25519TicketingVerifier, HumanApprovalProof,
};
use aci_boundary::boundary::errors::BoundaryError;
use aci_boundary::boundary::identifiers::{
    ActorId, ApprovalId, ApprovalIssuerId, ApprovalSignature, InvocationHash, ManifestHash,
    SessionId, TicketReference,
};
use aci_boundary::boundary::manifest::ToolCapability;
use ed25519_dalek::{Signer, SigningKey, VerifyingKey};

struct TestKeyring {
    key: VerifyingKey,
    issuer_ok: bool,
}

impl ApprovalKeyring for TestKeyring {
    fn public_key_for_issuer(&self, _issuer: &ApprovalIssuerId) -> Result<[u8; 32], BoundaryError> {
        Ok(self.key.to_bytes())
    }
    fn issuer_is_authorized_for_capability(
        &self,
        _issuer: &ApprovalIssuerId,
        _capability: ToolCapability,
    ) -> Result<(), BoundaryError> {
        if self.issuer_ok {
            Ok(())
        } else {
            Err(BoundaryError::PolicyDenial("issuer not allowed".into()))
        }
    }
    fn actor_is_authorized_for_capability(
        &self,
        _actor: &ActorId,
        _capability: ToolCapability,
    ) -> Result<(), BoundaryError> {
        Ok(())
    }
}

fn signing_key() -> SigningKey {
    SigningKey::from_bytes(&[7u8; 32])
}

fn message(version: u32, issued: u64, expires: u64) -> String {
    [
        format!("approval_version={version}"),
        "approval_id=appr-1".to_string(),
        "issuer_id=issuer-1".to_string(),
        "approver_identity=alice@example.com".to_string(),
        "session_id=sess-1".to_string(),
        format!("manifest_hash={}", "a".repeat(64)),
        format!("invocation_hash={}", "b".repeat(64)),
        "capability=write_file".to_string(),
        "ticket_reference=OPS:42".to_string(),
        format!("issued_at={issued}"),
        format!("expires_at={expires}"),
    ]
    .join("\n")
}

fn proof_with(signature_hex: String, version: u32) -> HumanApprovalProof {
    HumanApprovalProof {
        approval_id: ApprovalId::try_from("appr-1".to_string()).unwrap(),
        issuer_id: ApprovalIssuerId::try_from("issuer-1".to_string()).unwrap(),
        approver_identity: ActorId::try_from("alice@example.com".to_string()).unwrap(),
        session_id: SessionId::try_from("sess-1".to_string()).unwrap(),
        expected_manifest_hash: ManifestHash::try_from("a".repeat(64)).unwrap(),
        expected_invocation_hash: InvocationHash::try_from("b".repeat(64)).unwrap(),
        capability: ToolCapability::WriteFile,
        ticket_reference: TicketReference::try_from("OPS:42".to_string()).unwrap(),
        approval_version: version,
        issued_at: 100,
        expires_at: 200,
        signature: ApprovalSignature::try_from(signature_hex).unwrap(),
    }
}

fn signed_proof() -> HumanApprovalProof {
    let sig = signing_key().sign(message(1, 100, 200).as_bytes());
    proof_with(hex::encode(sig.to_bytes()), 1)
}

struct Ctx {
    session: SessionId,
    manifest: ManifestHash,
    invocation: InvocationHash,
}

fn ctx() -> Ctx {
    Ctx {
        session: SessionId::try_from("sess-1".to_string()).unwrap(),
        manifest: ManifestHash::try_from("a".repeat(64)).unwrap(),
        invocation: InvocationHash::try_from("b".repeat(64)).unwrap(),
    }
}

fn context(c: &Ctx, capability: ToolCapability, now: u64) -> ApprovalVerificationContext<'_> {
    ApprovalVerificationContext {
        session_id: &c.session,
        manifest_hash: &c.manifest,
        invocation_hash: &c.invocation,
        capability,
        current_time: now,
    }
}

fn ticket_verifier(issuer_ok: bool) -> Ed25519TicketingVerifier<TestKeyring> {
    Ed25519TicketingVerifier::new(TestKeyring { key: signing_key().verifying_key(), issuer_ok })
}

#[test]
fn a_correct_approval_verifies() {
    let c = ctx();
    let v = ticket_verifier(true);
    assert_eq!(v.verify_approval(&signed_proof(), &context(&c, ToolCapability::WriteFile, 150)), Ok(()));
    // Window bounds are inclusive.
    assert!(v.verify_approval(&signed_proof(), &context(&c, ToolCapability::WriteFile, 100)).is_ok());
    assert!(v.verify_approval(&signed_proof(), &context(&c, ToolCapability::WriteFile, 200)).is_ok());
}

#[test]
fn upper_case_signature_hex_is_accepted() {
    let sig = signing_key().sign(message(1, 100, 200).as_bytes());
    let proof = proof_with(hex::encode_upper(sig.to_bytes()), 1);
    let c = ctx();
    assert!(ticket_verifier(true).verify_approval(&proof, &context(&c, ToolCapability::WriteFile, 150)).is_ok());
}

#[test]
fn claims_are_checked_in_order() {
    let c = ctx();
    let v = ticket_verifier(true);
    assert_eq!(
        v.verify_approval(&proof_with("0".repeat(128), 2), &context(&c, ToolCapability::WriteFile, 150)),
        Err(BoundaryError::InvalidHumanApprovalProof)
    );
    let other = Ctx { session: SessionId::try_from("sess-2".to_string()).unwrap(), ..ctx() };
    assert_eq!(
        v.verify_approval(&signed_proof(), &context(&other, ToolCapability::WriteFile, 150)),
        Err(BoundaryError::PolicyDenial("Session ID mismatch".into()))
    );
    let other = Ctx { manifest: ManifestHash::try_from("c".repeat(64)).unwrap(), ..ctx() };
    assert_eq!(
        v.verify_approval(&signed_proof(), &context(&other, ToolCapability::WriteFile, 150)),
        Err(BoundaryError::PolicyDenial("Manifest hash mismatch".into()))
    );
    let other = Ctx { invocation: InvocationHash::try_from("c".repeat(64)).unwrap(), ..ctx() };
    assert_eq!(
        v.verify_approval(&signed_proof(), &context(&other, ToolCapability::WriteFile, 150)),
        Err(BoundaryError::PolicyDenial("Invocation hash mismatch".into()))
    );
    assert_eq!(
        v.verify_approval(&signed_proof(), &context(&c, ToolCapability::ExecuteCargoTests, 150)),
        Err(BoundaryError::PolicyDenial("Capability mismatch".into()))
    );
    assert_eq!(
        v.verify_approval(&signed_proof(), &context(&c, ToolCapability::WriteFile, 201)),
        Err(BoundaryError::PolicyDenial("Approval token expired".into()))
    );
    assert_eq!(
        v.verify_approval(&signed_proof(), &context(&c, ToolCapability::WriteFile, 99)),
        Err(BoundaryError::PolicyDenial("Approval token issued in future".into()))
    );
    assert_eq!(check_claims(&signed_proof(), &context(&c, ToolCapability::WriteFile, 150)), Ok(()));
}

#[test]
fn keyring_refusals_pass_through() {
    let c = ctx();
    assert_eq!(
        ticket_verifier(false).verify_approval(&signed_proof(), &context(&c, ToolCapability::WriteFile, 150)),
        Err(BoundaryError::PolicyDenial("issuer not allowed".into()))
    );
}

#[test]
fn forged_or_foreign_signatures_fail() {
    let c = ctx();
    let v = ticket_verifier(true);
    // A well-formed signature over another message.
    let sig = signing_key().sign(message(1, 100, 201).as_bytes());
    let proof = proof_with(hex::encode(sig.to_bytes()), 1);
    assert_eq!(
        v.verify_approval(&proof, &context(&c, ToolCapability::WriteFile, 150)),
        Err(BoundaryError::InvalidHumanApprovalProof)
    );
    // The right message signed by another key.
    let other = SigningKey::from_bytes(&[9u8; 32]);
    let sig = other.sign(message(1, 100, 200).as_bytes());
    let proof = proof_with(hex::encode(sig.to_bytes()), 1);
    assert_eq!(
        v.verify_approval(&proof, &context(&c, ToolCapability::WriteFile, 150)),
        Err(BoundaryError::InvalidHumanApprovalProof)
    );
    // Zero bytes are not a signature.
    assert_eq!(
        check_signature(&signing_key().verifying_key().to_bytes(), &proof_with("0".repeat(128), 1)),
        Err(BoundaryError::InvalidHumanApprovalProof)
    );
    assert_eq!(check_signature(&signing_key().verifying_key().to_bytes(), &signed_proof()), Ok(()));
}

#[test]
fn signature_digits_spell_the_signature_bytes() {
    let sig = signing_key().sign(message(1, 100, 200).as_bytes());
    assert_eq!(signature_bytes(&signed_proof()), sig.to_bytes());
    let mut expected = [0u8; 64];
    expected[0] = 0xab;
    expected[63] = 0x0f;
    let text = format!("AB{}0f", "0".repeat(124));
    assert_eq!(signature_bytes(&proof_with(text, 1)), expected);
}

#[test]
fn a_signature_over_one_approval_does_not_cover_another() {
    let c = ctx();
    let v = ticket_verifier(true);
    let sig = signing_key().sign(message(1, 100, 200).as_bytes());
    let mut other = proof_with(hex::encode(sig.to_bytes()), 1);
    other.ticket_reference = TicketReference::try_from("OPS:43".to_string()).unwrap();
    assert_eq!(
        v.verify_approval(&other, &context(&c, ToolCapability::WriteFile, 150)),
        Err(BoundaryError::InvalidHumanApprovalProof)
    );
    let mut other = proof_with(hex::encode(sig.to_bytes()), 1);
    other.approval_id = ApprovalId::try_from("appr-2".to_string()).unwrap();
    assert_eq!(
        v.verify_approval(&other, &context(&c, ToolCapability::WriteFile, 150)),
        Err(BoundaryError::InvalidHumanApprovalProof)
    );
}
