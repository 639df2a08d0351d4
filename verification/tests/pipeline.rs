use std::cell::{Cell, RefCell};

use aci_boundary::boundary::approval::{
    ApprovalStateStore, ApprovalVerificationContext, ApprovalVerifier, HumanApprovalProof,
};
use aci_boundary::boundary::audit::{AuditOutcome, AuditRecord, AuditSink};
use aci_boundary::boundary::errors::BoundaryError;
use aci_boundary::boundary::identifiers::{
    ActorId, ApprovalId, ApprovalIssuerId, ApprovalSignature, InvocationHash, ManifestHash,
    ManifestId, SessionId, TicketReference,
};
use aci_boundary::boundary::llm::RawToolProposal;
use aci_boundary::boundary::manifest::{Environment, PathScope, ScopeManifest, ToolCapability};
use aci_boundary::boundary::pipeline::{PipelineAction, PipelineStep};
use aci_boundary::boundary::tool::ValidatedToolInvocation;
use aci_boundary::boundary::types::IsolatedPath;
use aci_boundary::boundary::{
    audit_write_outcome, emit_audit, ApprovalReservation, AuditEmission, BoundaryRuntimePolicy,
    PolicyGate, StepServices,
};

const PAYLOAD: &[u8] = br#"{"tool_name":"read_file","arguments":{"path":"src/lib.rs"}}"#;
const PAYLOAD_HASH: &str = "c8906165d1acc0486284d0bc297232d35b46a4c1b7be742b32534697b0248c2a";

fn path(raw: &str) -> IsolatedPath {
    IsolatedPath::try_from(raw.to_string()).unwrap()
}

fn manifest(environment: Environment) -> ScopeManifest {
    ScopeManifest {
        manifest_id: ManifestId::try_from("m1".to_string()).unwrap(),
        environment,
        allowed_capabilities: vec![ToolCapability::ReadFile, ToolCapability::WriteFile],
        read_scopes: vec![PathScope::DirectoryTree(path("src"))],
        write_scopes: vec![PathScope::DirectoryTree(path("src"))],
        step_budget: 3,
    }
}

fn read_proposal() -> RawToolProposal {
    RawToolProposal::ReadFile { path: "src/lib.rs".into() }
}

fn write_proposal() -> RawToolProposal {
    RawToolProposal::WriteFile { path: "src/x.rs".into(), content: "x".into() }
}

/// Keeps every record; refuses to write once `fail_from` records are held.
struct CaptureSink {
    records: RefCell<Vec<AuditRecord>>,
    fail_from: usize,
}

impl CaptureSink {
    fn new() -> Self {
        CaptureSink { records: RefCell::new(vec![]), fail_from: usize::MAX }
    }
    fn failing_after(n: usize) -> Self {
        CaptureSink { records: RefCell::new(vec![]), fail_from: n }
    }
    fn outcomes(&self) -> Vec<(u64, AuditOutcome)> {
        self.records.borrow().iter().map(|r| (r.sequence_number, r.outcome.clone())).collect()
    }
}

impl AuditSink for CaptureSink {
    fn emit_record(&self, record: AuditRecord) -> Result<(), BoundaryError> {
        if self.records.borrow().len() >= self.fail_from {
            return Err(BoundaryError::StorageAccessError("disk full".into()));
        }
        self.records.borrow_mut().push(record);
        Ok(())
    }
}

struct FixedVerifier(bool);
impl ApprovalVerifier for FixedVerifier {
    fn verify_approval(
        &self,
        _proof: &HumanApprovalProof,
        _context: &ApprovalVerificationContext,
    ) -> Result<(), BoundaryError> {
        if self.0 {
            Ok(())
        } else {
            Err(BoundaryError::InvalidHumanApprovalProof)
        }
    }
}

struct Store {
    reserved: RefCell<Vec<String>>,
    consumed: RefCell<Vec<String>>,
    released: RefCell<Vec<String>>,
    consume_ok: Cell<bool>,
}

impl Store {
    fn new() -> Self {
        Store {
            reserved: RefCell::new(vec![]),
            consumed: RefCell::new(vec![]),
            released: RefCell::new(vec![]),
            consume_ok: Cell::new(true),
        }
    }
}

impl ApprovalStateStore for Store {
    fn is_ticket_active(&self, _ticket: &TicketReference) -> Result<(), BoundaryError> {
        Ok(())
    }
    fn reserve_approval(&self, id: &ApprovalId, _ttl: u64) -> Result<(), BoundaryError> {
        self.reserved.borrow_mut().push(id.as_str().to_string());
        Ok(())
    }
    fn consume_reserved_approval(&self, id: &ApprovalId) -> Result<(), BoundaryError> {
        if !self.consume_ok.get() {
            return Err(BoundaryError::PolicyDenial("replayed".into()));
        }
        self.consumed.borrow_mut().push(id.as_str().to_string());
        Ok(())
    }
    fn release_reserved_approval(&self, id: &ApprovalId) -> Result<(), BoundaryError> {
        self.released.borrow_mut().push(id.as_str().to_string());
        Ok(())
    }
}

fn sample_approval() -> HumanApprovalProof {
    HumanApprovalProof {
        approval_id: ApprovalId::try_from("appr-1".to_string()).unwrap(),
        issuer_id: ApprovalIssuerId::try_from("iss".to_string()).unwrap(),
        approver_identity: ActorId::try_from("bob".to_string()).unwrap(),
        session_id: SessionId::try_from("sess".to_string()).unwrap(),
        expected_manifest_hash: ManifestHash::try_from("a".repeat(64)).unwrap(),
        expected_invocation_hash: InvocationHash::try_from("b".repeat(64)).unwrap(),
        capability: ToolCapability::WriteFile,
        ticket_reference: TicketReference::try_from("T-1".to_string()).unwrap(),
        approval_version: 1,
        issued_at: 0,
        expires_at: 10,
        signature: ApprovalSignature::try_from("0".repeat(128)).unwrap(),
    }
}

struct World {
    session: SessionId,
    manifest: ScopeManifest,
    sink: CaptureSink,
    verifier: FixedVerifier,
    store: Store,
    policy: BoundaryRuntimePolicy,
}

impl World {
    fn new(environment: Environment, sink: CaptureSink) -> Self {
        World {
            session: SessionId::try_from("sess".to_string()).unwrap(),
            manifest: manifest(environment),
            sink,
            verifier: FixedVerifier(true),
            store: Store::new(),
            policy: BoundaryRuntimePolicy { approval_reservation_ttl_secs: 30 },
        }
    }
    fn services<'a>(&'a self, approval: Option<&'a HumanApprovalProof>) -> StepServices<'a> {
        StepServices {
            session_id: &self.session,
            manifest: &self.manifest,
            approval,
            audit_sink: &self.sink,
            verifier: &self.verifier,
            state_store: &self.store,
            policy: &self.policy,
        }
    }
}

fn expect_denial(action: PipelineAction, expected: BoundaryError) {
    match action {
        PipelineAction::Finish(Err(e)) => assert_eq!(e, expected),
        _ => panic!("expected the step to end with an error"),
    }
}

#[test]
fn exhausted_budget_is_denied_and_logged() {
    let w = World::new(Environment::Development, CaptureSink::new());
    let (s, a) = PipelineStep::start(PAYLOAD, Ok(read_proposal()), 5, 0, 77, &w.services(None));
    assert_eq!(s.remaining_budget(), 0);
    assert_eq!(s.proposal_hash(), PAYLOAD_HASH);
    assert_eq!(s.timestamp(), 77);
    assert_eq!(s.sequence(), 6);
    expect_denial(a, BoundaryError::PolicyDenial("Transaction step budget exhausted".into()));
    assert_eq!(
        w.sink.outcomes(),
        vec![(
            5,
            AuditOutcome::PolicyDenied {
                reason: "Policy gate enforcement denial: Transaction step budget exhausted".into()
            }
        )]
    );
}

#[test]
fn denial_with_failed_log_reports_the_log_failure() {
    let w = World::new(Environment::Development, CaptureSink::failing_after(0));
    let (s, a) = PipelineStep::start(b"{", Err("EOF while parsing".into()), 0, 2, 1, &w.services(None));
    assert_eq!(s.remaining_budget(), 1);
    assert_eq!(s.sequence(), 0);
    expect_denial(
        a,
        BoundaryError::AuditSystemFailure(
            "Terminal parse denial logging failed: Underlying workspace storage access error: disk full"
                .into(),
        ),
    );
}

#[test]
fn parse_and_validation_denials() {
    let w = World::new(Environment::Development, CaptureSink::new());
    let (s, a) = PipelineStep::start(b"{", Err("EOF while parsing".into()), 3, 2, 1, &w.services(None));
    assert_eq!(s.sequence(), 4);
    expect_denial(a, BoundaryError::MalformedProviderPayload("EOF while parsing".into()));
    let (s, a) = PipelineStep::start(
        PAYLOAD,
        Ok(RawToolProposal::RunTests { test_suite: "unit".into() }),
        4,
        2,
        1,
        &w.services(None),
    );
    assert_eq!(s.sequence(), 5);
    expect_denial(a, BoundaryError::CapabilityProhibited("execute_cargo_tests".into()));
    assert_eq!(
        w.sink.outcomes(),
        vec![
            (
                3,
                AuditOutcome::ParseDenied {
                    reason: "Malformed provider output payload: EOF while parsing".into()
                }
            ),
            (
                4,
                AuditOutcome::ValidationDenied {
                    proposed_capability: ToolCapability::ExecuteCargoTests,
                    reason: "Capability not authorized by active scope manifest: execute_cargo_tests"
                        .into(),
                }
            ),
        ]
    );
}

#[test]
fn an_ungated_read_runs_between_two_records() {
    let w = World::new(Environment::Development, CaptureSink::new());
    let sv = w.services(None);
    let (s, a) = PipelineStep::start(PAYLOAD, Ok(read_proposal()), 10, 3, 5, &sv);
    assert_eq!(s.remaining_budget(), 2);
    assert_eq!(s.sequence(), 11);
    assert!(s.awaits_execution());
    match a {
        PipelineAction::Execute(inv) => assert_eq!(inv.capability(), ToolCapability::ReadFile),
        _ => panic!("expected execution"),
    }
    let (s, r) = s.resume(Ok("contents".into()), &sv);
    assert_eq!(r, Ok("contents".to_string()));
    assert_eq!(s.sequence(), 12);
    assert_eq!(
        w.sink.outcomes(),
        vec![
            (10, AuditOutcome::ExecutionStarted { capability: ToolCapability::ReadFile }),
            (11, AuditOutcome::ExecutionSucceeded { capability: ToolCapability::ReadFile }),
        ]
    );
}

#[test]
fn a_production_write_runs_only_on_a_consumed_approval() {
    let w = World::new(Environment::Production, CaptureSink::new());
    let p = sample_approval();
    let (s, a) = PipelineStep::start(PAYLOAD, Ok(write_proposal()), 0, 3, 5, &w.services(Some(&p)));
    assert!(matches!(a, PipelineAction::Execute(_)));
    assert_eq!(s.sequence(), 1);
    assert_eq!(*w.store.reserved.borrow(), vec!["appr-1".to_string()]);
    assert_eq!(*w.store.consumed.borrow(), vec!["appr-1".to_string()]);
    assert!(w.store.released.borrow().is_empty());
}

#[test]
fn a_production_write_without_approval_is_refused_and_logged() {
    let w = World::new(Environment::Production, CaptureSink::new());
    let (s, a) = PipelineStep::start(PAYLOAD, Ok(write_proposal()), 4, 3, 5, &w.services(None));
    assert_eq!(s.sequence(), 5);
    expect_denial(
        a,
        BoundaryError::PolicyDenial("Production mutations require explicit authorization signatures".into()),
    );
    assert_eq!(
        w.sink.outcomes(),
        vec![(
            4,
            AuditOutcome::PolicyDenied {
                reason: "Policy gate enforcement denial: Production mutations require explicit authorization signatures"
                    .into()
            }
        )]
    );
    assert!(w.store.reserved.borrow().is_empty());
}

#[test]
fn gate_refusal_is_logged_as_policy_denial() {
    let mut w = World::new(Environment::Production, CaptureSink::new());
    w.verifier = FixedVerifier(false);
    let p = sample_approval();
    let (_, a) = PipelineStep::start(PAYLOAD, Ok(write_proposal()), 4, 3, 5, &w.services(Some(&p)));
    expect_denial(a, BoundaryError::InvalidHumanApprovalProof);
    assert_eq!(
        w.sink.outcomes(),
        vec![(
            4,
            AuditOutcome::PolicyDenied {
                reason: "Cryptographic digital signature verification failed for human approval proof".into()
            }
        )]
    );
    assert!(w.store.reserved.borrow().is_empty());
}

#[test]
fn a_reserved_approval_is_released_when_the_start_cannot_be_logged() {
    let w = World::new(Environment::Production, CaptureSink::failing_after(0));
    let p = sample_approval();
    let (s, a) = PipelineStep::start(PAYLOAD, Ok(write_proposal()), 0, 3, 5, &w.services(Some(&p)));
    assert_eq!(s.sequence(), 0);
    expect_denial(
        a,
        BoundaryError::AuditSystemFailure(
            "Pre-execution audit logging failed: Underlying workspace storage access error: disk full"
                .into(),
        ),
    );
    assert_eq!(*w.store.released.borrow(), vec!["appr-1".to_string()]);
    assert!(w.store.consumed.borrow().is_empty());
}

#[test]
fn a_failed_consumption_is_logged_and_nothing_runs() {
    let w = World::new(Environment::Production, CaptureSink::new());
    w.store.consume_ok.set(false);
    let p = sample_approval();
    let (s, a) = PipelineStep::start(PAYLOAD, Ok(write_proposal()), 0, 3, 5, &w.services(Some(&p)));
    assert_eq!(s.sequence(), 2);
    expect_denial(a, BoundaryError::PolicyDenial("replayed".into()));
    assert_eq!(
        w.sink.outcomes(),
        vec![
            (0, AuditOutcome::ExecutionStarted { capability: ToolCapability::WriteFile }),
            (
                1,
                AuditOutcome::ApprovalConsumptionFailed {
                    reason: "Policy gate enforcement denial: replayed".into()
                }
            ),
        ]
    );
}

#[test]
fn execution_failure_is_logged() {
    let w = World::new(Environment::Development, CaptureSink::new());
    let sv = w.services(None);
    let (s, _) = PipelineStep::start(PAYLOAD, Ok(read_proposal()), 0, 3, 5, &sv);
    let (s, r) = s.resume(Err(BoundaryError::StorageAccessError("eio".into())), &sv);
    assert_eq!(s.sequence(), 2);
    assert_eq!(r, Err(BoundaryError::StorageAccessError("eio".into())));
    assert_eq!(
        w.sink.outcomes()[1],
        (1, AuditOutcome::ExecutionFailed { error: "Underlying workspace storage access error: eio".into() })
    );
}

#[test]
fn execution_failure_with_failed_log_reports_both() {
    let w = World::new(Environment::Development, CaptureSink::failing_after(1));
    let sv = w.services(None);
    let (s, _) = PipelineStep::start(PAYLOAD, Ok(read_proposal()), 0, 3, 5, &sv);
    let (s, r) = s.resume(Err(BoundaryError::StorageAccessError("eio".into())), &sv);
    assert_eq!(s.sequence(), 2);
    assert_eq!(
        r,
        Err(BoundaryError::AuditSystemFailure(
            "Execution failed [Underlying workspace storage access error: eio], AND logging failed [Mandatory audit logging system failure: Execution failure logging failed: Underlying workspace storage access error: disk full. Failing closed.]"
                .into()
        ))
    );
}

#[test]
fn success_with_failed_log_is_an_audit_failure() {
    let w = World::new(Environment::Development, CaptureSink::failing_after(1));
    let sv = w.services(None);
    let (s, _) = PipelineStep::start(PAYLOAD, Ok(read_proposal()), 0, 3, 5, &sv);
    let (s, r) = s.resume(Ok("contents".into()), &sv);
    assert_eq!(s.sequence(), 1);
    assert_eq!(
        r,
        Err(BoundaryError::AuditSystemFailure(
            "Execution succeeded, but completion audit failed: Underlying workspace storage access error: disk full"
                .into()
        ))
    );
}

#[test]
fn emitted_records_carry_the_step_details() {
    let w = World::new(Environment::Development, CaptureSink::new());
    let r = emit_audit(
        &w.services(None),
        AuditEmission {
            sequence: 42,
            timestamp: 1000,
            proposal_hash: PAYLOAD_HASH,
            outcome: AuditOutcome::ExecutionStarted { capability: ToolCapability::ReadFile },
            failure_context: "ctx",
        },
    );
    assert_eq!(r, Ok(()));
    let recs = w.sink.records.borrow();
    assert_eq!(recs.len(), 1);
    assert_eq!(recs[0].sequence_number, 42);
    assert_eq!(recs[0].timestamp, 1000);
    assert_eq!(recs[0].session_id.as_str(), "sess");
    assert_eq!(recs[0].manifest_id.as_str(), "m1");
    assert_eq!(recs[0].raw_proposal_hash, PAYLOAD_HASH);
    assert_eq!(recs[0].event_id.len(), 36);
    assert_eq!(recs[0].event_id.as_bytes()[14], b'4');
    assert!(matches!(recs[0].event_id.as_bytes()[19], b'8' | b'9' | b'a' | b'b'));
    for (i, ch) in recs[0].event_id.chars().enumerate() {
        if i == 8 || i == 13 || i == 18 || i == 23 {
            assert_eq!(ch, '-');
        } else {
            assert!(matches!(ch, '0'..='9' | 'a'..='f'));
        }
    }
    drop(recs);

    let failing = World::new(Environment::Development, CaptureSink::failing_after(0));
    let r = emit_audit(
        &failing.services(None),
        AuditEmission {
            sequence: 1,
            timestamp: 1,
            proposal_hash: "h",
            outcome: AuditOutcome::PolicyDenied { reason: "r".into() },
            failure_context: "Terminal policy denial logging failed",
        },
    );
    assert_eq!(
        r,
        Err(BoundaryError::AuditSystemFailure(
            "Terminal policy denial logging failed: Underlying workspace storage access error: disk full".into()
        ))
    );
}

#[test]
fn the_gate_asks_for_approval_only_for_production_mutations() {
    let prod = World::new(Environment::Production, CaptureSink::new());
    let dev = World::new(Environment::Development, CaptureSink::new());
    let write = ValidatedToolInvocation::try_from_proposal(write_proposal(), &prod.manifest).unwrap();
    let read = ValidatedToolInvocation::try_from_proposal(read_proposal(), &prod.manifest).unwrap();
    assert!(matches!(
        PolicyGate::verify_and_reserve(&write, 5, &dev.services(None)),
        Ok(ApprovalReservation::NotRequired)
    ));
    assert!(matches!(
        PolicyGate::verify_and_reserve(&read, 5, &prod.services(None)),
        Ok(ApprovalReservation::NotRequired)
    ));
    assert!(matches!(
        PolicyGate::verify_and_reserve(&write, 5, &prod.services(None)),
        Err(BoundaryError::PolicyDenial(m)) if m == "Production mutations require explicit authorization signatures"
    ));
    let p = sample_approval();
    match PolicyGate::verify_and_reserve(&write, 5, &prod.services(Some(&p))) {
        Ok(ApprovalReservation::Reserved { approval_id }) => assert_eq!(approval_id.as_str(), "appr-1"),
        _ => panic!("expected a reservation"),
    }
    assert_eq!(*prod.store.reserved.borrow(), vec!["appr-1".to_string()]);
}

#[test]
fn sink_answers_become_audit_results() {
    assert_eq!(audit_write_outcome("Pre-execution audit logging failed", Ok(())), Ok(()));
    assert_eq!(
        audit_write_outcome(
            "Pre-execution audit logging failed",
            Err(BoundaryError::StorageAccessError("disk full".into()))
        ),
        Err(BoundaryError::AuditSystemFailure(
            "Pre-execution audit logging failed: Underlying workspace storage access error: disk full"
                .into()
        ))
    );
}

#[test]
fn a_shared_budget_runs_out() {
    let w = World::new(Environment::Development, CaptureSink::new());
    let sv = w.services(None);
    let mut budget: u32 = 2;
    let mut sequence: u64 = 0;
    let mut executed = 0;
    for _ in 0..4 {
        let (s, a) = PipelineStep::start(PAYLOAD, Ok(read_proposal()), sequence, budget, 5, &sv);
        budget = s.remaining_budget();
        sequence = s.sequence();
        if let PipelineAction::Execute(_) = a {
            executed += 1;
            let (s, _) = s.resume(Ok("ok".into()), &sv);
            sequence = s.sequence();
            budget = s.remaining_budget();
        }
    }
    assert_eq!(budget, 0);
    assert_eq!(executed, 2);
    let numbers: Vec<u64> = w.sink.outcomes().iter().map(|(n, _)| *n).collect();
    assert_eq!(numbers, vec![0, 1, 2, 3, 4, 5]);
}
