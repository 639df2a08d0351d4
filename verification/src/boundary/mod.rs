pub mod approval;
pub mod audit;
pub mod crypto;
pub mod errors;
pub mod execution;
pub mod executor;
pub mod identifiers;
pub mod llm;
pub mod manifest;
pub mod pipeline;
pub mod text;
pub mod tool;
pub mod types;
pub mod workspace;

use vstd::prelude::*;
use crate::boundary::approval::{
    ApprovalContextView, ApprovalStateStore, ApprovalVerificationContext, ApprovalVerifier,
    HumanApprovalProof,
};
use crate::boundary::audit::{
    random_uuid_text, uuid_v4_text, AuditOutcome, AuditOutcomeView, AuditRecord, AuditRecordView, AuditSink,
};
use crate::boundary::errors::{answer_view, error_message, policy_denial, BoundaryError, BoundaryErrorView};
use crate::boundary::identifiers::{ApprovalId, SessionId};
use crate::boundary::manifest::{manifest_digest, Environment, ScopeManifest, ToolCapability};
use crate::boundary::text::push_str;
use crate::boundary::tool::{kind_capability, InvocationView, ValidatedToolInvocation};

pub use crate::boundary::executor::{NarrowExecutionAdapter, RuntimeEnvironment};

verus! {

/// Whether the boundary asks for a human approval: mutations (writes and test
/// runs) in production.
pub open spec fn approval_required(environment: Environment, capability: ToolCapability) -> bool {
    environment == Environment::Production && (capability == ToolCapability::WriteFile
        || capability == ToolCapability::ExecuteCargoTests)
}

/// Whether a step went ahead on a reserved approval, which must then be
/// consumed, or released if the step stops before executing.
#[derive(Debug)]
pub enum ApprovalReservation {
    NotRequired,
    Reserved { approval_id: ApprovalId },
}

pub enum ReservationView {
    NotRequired,
    Reserved(Seq<char>),
}

impl View for ApprovalReservation {
    type V = ReservationView;

    open spec fn view(&self) -> ReservationView {
        match self {
            ApprovalReservation::NotRequired => ReservationView::NotRequired,
            ApprovalReservation::Reserved { approval_id } => ReservationView::Reserved(approval_id@),
        }
    }
}

pub struct BoundaryRuntimePolicy {
    pub approval_reservation_ttl_secs: u64,
}

/// What one pipeline step works with: the session, its counters, and the
/// services that log, verify, track approvals and execute.
pub struct ExecutionCoordinator<'a> {
    pub session_id: SessionId,
    pub current_sequence: &'a mut u64,
    pub remaining_step_budget: &'a mut u32,
    pub audit_sink: &'a dyn AuditSink,
    pub verifier: &'a dyn ApprovalVerifier,
    pub state_store: &'a dyn ApprovalStateStore,
    pub executor: &'a NarrowExecutionAdapter,
    pub policy: &'a BoundaryRuntimePolicy,
}

/// What a pipeline step runs under besides its payload: the session and
/// manifest, the approval offered for it, and the services that log, verify
/// and track approvals.
pub struct StepServices<'a> {
    pub session_id: &'a SessionId,
    pub manifest: &'a ScopeManifest,
    pub approval: Option<&'a HumanApprovalProof>,
    pub audit_sink: &'a dyn AuditSink,
    pub verifier: &'a dyn ApprovalVerifier,
    pub state_store: &'a dyn ApprovalStateStore,
    pub policy: &'a BoundaryRuntimePolicy,
}

/// The context a required approval is checked in: the step's session, the
/// manifest's digest, the invocation's digest and capability, and the time.
pub open spec fn gate_context(services: &StepServices, invocation: InvocationView, current_time: u64) -> ApprovalContextView {
    ApprovalContextView {
        session_id: services.session_id@,
        manifest_hash: manifest_digest(services.manifest@),
        invocation_hash: invocation.invocation_hash,
        capability: kind_capability(invocation.kind),
        current_time,
    }
}

/// What [`PolicyGate::verify_and_reserve`] may return for an invocation,
/// given what its services may return. Without a required approval (see
/// [`approval_required`]) nothing is reserved. With one, a proof must be
/// offered; the approval checker is asked for its verdict on it in the
/// context [`gate_context`] describes, then the store whether its ticket is
/// open, then to reserve the approval for the policy's time. Each question
/// is asked only once the ones before it got `Ok`, each reply is one the
/// service may give, and the first refusal is returned unchanged; if none
/// refuses, the approval is reserved.
pub open spec fn gate_admits(
    services: &StepServices,
    invocation: InvocationView,
    current_time: u64,
    answer: Result<ReservationView, BoundaryErrorView>,
) -> bool {
    if !approval_required(services.manifest.environment, kind_capability(invocation.kind)) {
        answer == Ok::<ReservationView, BoundaryErrorView>(ReservationView::NotRequired)
    } else {
        match services.approval {
            None => answer == Err::<ReservationView, BoundaryErrorView>(
                BoundaryErrorView::PolicyDenial(
                    "Production mutations require explicit authorization signatures"@,
                ),
            ),
            Some(p) => exists|verdict: Result<(), BoundaryErrorView>|
                #[trigger] services.verifier.approval_answer(
                    p@,
                    gate_context(services, invocation, current_time),
                    verdict,
                ) && match verdict {
                    Err(e) => answer == Err::<ReservationView, BoundaryErrorView>(e),
                    Ok(_) => exists|ticket: Result<(), BoundaryErrorView>|
                        #[trigger] services.state_store.ticket_answer(p.ticket_reference@, ticket)
                            && match ticket {
                            Err(e) => answer == Err::<ReservationView, BoundaryErrorView>(e),
                            Ok(_) => exists|reservation: Result<(), BoundaryErrorView>|
                                #[trigger] services.state_store.reservation_answer(
                                    p.approval_id@,
                                    services.policy.approval_reservation_ttl_secs,
                                    reservation,
                                ) && match reservation {
                                    Err(e) => answer == Err::<ReservationView, BoundaryErrorView>(e),
                                    Ok(_) => answer == Ok::<ReservationView, BoundaryErrorView>(
                                        ReservationView::Reserved(p.approval_id@),
                                    ),
                                },
                        },
                },
        }
    }
}

/// What letting an invocation through means: [`gate_admits`] allows
/// `Ok(reservation)`.
pub open spec fn gate_passed(
    services: &StepServices,
    invocation: InvocationView,
    current_time: u64,
    reservation: ReservationView,
) -> bool {
    gate_admits(services, invocation, current_time, Ok(reservation))
}

/// Law: a human approval is required exactly for mutations in production:
/// writes and test runs under a production manifest. Reads never need one,
/// and nothing outside production does.
pub proof fn lemma_approval_required_for_production_mutations(
    environment: Environment,
    capability: ToolCapability,
)
    ensures
        approval_required(environment, capability) <==> (environment == Environment::Production
            && capability != ToolCapability::ReadFile),
        approval_required(Environment::Production, ToolCapability::WriteFile),
        approval_required(Environment::Production, ToolCapability::ExecuteCargoTests),
{
}

/// Law: decisions that need no service. A write or a
/// test run under a production manifest with no approval offered is refused
/// with the missing-authorization denial; a read, or anything outside
/// production, goes through with nothing reserved.
pub proof fn lemma_gate_without_approval(
    services: &StepServices,
    invocation: InvocationView,
    current_time: u64,
    answer: Result<ReservationView, BoundaryErrorView>,
)
    requires
        gate_admits(services, invocation, current_time, answer),
    ensures
        services.manifest.environment == Environment::Production && !(invocation.kind is ReadFile)
            && services.approval is None ==> answer == Err::<ReservationView, BoundaryErrorView>(
            BoundaryErrorView::PolicyDenial(
                "Production mutations require explicit authorization signatures"@,
            ),
        ),
        services.manifest.environment != Environment::Production || invocation.kind is ReadFile
            ==> answer == Ok::<ReservationView, BoundaryErrorView>(ReservationView::NotRequired),
{
}

/// Law: a required approval is refused with the first refusal of its checks,
/// unchanged, in their order: the approval checker's verdict, then the
/// ticket, then the reservation.
pub proof fn lemma_first_refusal_is_returned(
    services: &StepServices,
    invocation: InvocationView,
    current_time: u64,
    x: BoundaryErrorView,
    answer: Result<ReservationView, BoundaryErrorView>,
)
    requires
        approval_required(services.manifest.environment, kind_capability(invocation.kind)),
        services.approval is Some,
        gate_admits(services, invocation, current_time, answer),
    ensures
        (forall|v: Result<(), BoundaryErrorView>|
            #[trigger] services.verifier.approval_answer(
                services.approval->Some_0@,
                gate_context(services, invocation, current_time),
                v,
            ) ==> v == Err::<(), BoundaryErrorView>(x)) ==> answer == Err::<
            ReservationView,
            BoundaryErrorView,
        >(x),
        (forall|v: Result<(), BoundaryErrorView>|
            #[trigger] services.verifier.approval_answer(
                services.approval->Some_0@,
                gate_context(services, invocation, current_time),
                v,
            ) ==> v is Ok) && (forall|a: Result<(), BoundaryErrorView>|
            #[trigger] services.state_store.ticket_answer(
                services.approval->Some_0.ticket_reference@,
                a,
            ) ==> a == Err::<(), BoundaryErrorView>(x)) ==> answer == Err::<
            ReservationView,
            BoundaryErrorView,
        >(x),
        (forall|v: Result<(), BoundaryErrorView>|
            #[trigger] services.verifier.approval_answer(
                services.approval->Some_0@,
                gate_context(services, invocation, current_time),
                v,
            ) ==> v is Ok) && (forall|a: Result<(), BoundaryErrorView>|
            #[trigger] services.state_store.ticket_answer(
                services.approval->Some_0.ticket_reference@,
                a,
            ) ==> a is Ok) && (forall|a: Result<(), BoundaryErrorView>|
            #[trigger] services.state_store.reservation_answer(
                services.approval->Some_0.approval_id@,
                services.policy.approval_reservation_ttl_secs,
                a,
            ) ==> a == Err::<(), BoundaryErrorView>(x)) ==> answer == Err::<
            ReservationView,
            BoundaryErrorView,
        >(x),
{
}

/// Law: a required approval is reserved when each of its checks passes: the
/// approval checker can only accept it in the context of [`gate_context`],
/// and the store can only answer that its ticket is open and that it is
/// reserved.
pub proof fn lemma_reserved_when_every_check_passes(
    services: &StepServices,
    invocation: InvocationView,
    current_time: u64,
    answer: Result<ReservationView, BoundaryErrorView>,
)
    requires
        approval_required(services.manifest.environment, kind_capability(invocation.kind)),
        services.approval is Some,
        forall|v: Result<(), BoundaryErrorView>|
            #[trigger] services.verifier.approval_answer(
                services.approval->Some_0@,
                gate_context(services, invocation, current_time),
                v,
            ) ==> v is Ok,
        forall|a: Result<(), BoundaryErrorView>|
            #[trigger] services.state_store.ticket_answer(services.approval->Some_0.ticket_reference@, a)
                ==> a is Ok,
        forall|a: Result<(), BoundaryErrorView>|
            #[trigger] services.state_store.reservation_answer(
                services.approval->Some_0.approval_id@,
                services.policy.approval_reservation_ttl_secs,
                a,
            ) ==> a is Ok,
        gate_admits(services, invocation, current_time, answer),
    ensures
        answer == Ok::<ReservationView, BoundaryErrorView>(
            ReservationView::Reserved(services.approval->Some_0.approval_id@),
        ),
{
}

pub open spec fn reservation_result_view(r: Result<ApprovalReservation, BoundaryError>) -> Result<
    ReservationView,
    BoundaryErrorView,
> {
    match r {
        Ok(res) => Ok(res@),
        Err(e) => Err(e@),
    }
}


pub struct PolicyGate;

impl PolicyGate {
    /// Lets a step through when no approval is required. When one is (see
    /// [`approval_required`]), a proof must be present; it is verified against
    /// the session, the manifest's digest, the invocation's digest and
    /// capability, and the current time; its ticket must be active; and the
    /// approval is reserved for the step (see [`gate_passed`]).
    pub fn verify_and_reserve(
        invocation: &ValidatedToolInvocation,
        current_time: u64,
        services: &StepServices,
    ) -> (r: Result<ApprovalReservation, BoundaryError>)
        ensures
            !approval_required(services.manifest.environment, kind_capability(invocation@.kind))
                ==> r matches Ok(ApprovalReservation::NotRequired),
            approval_required(services.manifest.environment, kind_capability(invocation@.kind))
                && services.approval is None ==> (r matches Err(e) && e@
                == BoundaryErrorView::PolicyDenial(
                "Production mutations require explicit authorization signatures"@,
            )),
            gate_admits(services, invocation@, current_time, reservation_result_view(r)),
    {
        let capability = invocation.capability();
        let mutating = match capability {
            ToolCapability::WriteFile | ToolCapability::ExecuteCargoTests => true,
            ToolCapability::ReadFile => false,
        };
        if services.manifest.environment == Environment::Production && mutating {
            let proof = match services.approval {
                Some(p) => p,
                None => {
                    return Err(
                        policy_denial(
                            "Production mutations require explicit authorization signatures",
                        ),
                    );
                },
            };
            let canonical_manifest_hash = services.manifest.compute_canonical_hash()?;
            let verification_context = ApprovalVerificationContext {
                session_id: services.session_id,
                manifest_hash: &canonical_manifest_hash,
                invocation_hash: invocation.invocation_hash(),
                capability,
                current_time,
            };
            assert(verification_context@ == gate_context(services, invocation@, current_time));
            let verified = services.verifier.verify_approval(proof, &verification_context);
            assert(services.verifier.approval_answer(
                proof@,
                gate_context(services, invocation@, current_time),
                answer_view(verified),
            ));
            if let Err(e) = verified {
                return Err(e);
            }
            let ticket = services.state_store.is_ticket_active(&proof.ticket_reference);
            assert(services.state_store.ticket_answer(proof.ticket_reference@, answer_view(ticket)));
            if let Err(e) = ticket {
                return Err(e);
            }
            let reserved = services.state_store.reserve_approval(
                &proof.approval_id,
                services.policy.approval_reservation_ttl_secs,
            );
            assert(services.state_store.reservation_answer(
                proof.approval_id@,
                services.policy.approval_reservation_ttl_secs,
                answer_view(reserved),
            ));
            if let Err(e) = reserved {
                return Err(e);
            }
            return Ok(ApprovalReservation::Reserved { approval_id: proof.approval_id.clone() });
        }
        Ok(ApprovalReservation::NotRequired)
    }
}

/// One audit record to write for a step, and the text that prefixes the
/// error if writing fails.
pub struct AuditEmission<'a> {
    pub sequence: u64,
    pub timestamp: u64,
    pub proposal_hash: &'a str,
    pub outcome: AuditOutcome,
    pub failure_context: &'a str,
}

/// The record an emission writes, given its event identifier.
pub open spec fn emission_record(
    event_id: Seq<char>,
    sequence: u64,
    timestamp: u64,
    session_id: Seq<char>,
    manifest_id: Seq<char>,
    proposal_hash: Seq<char>,
    outcome: AuditOutcomeView,
) -> AuditRecordView {
    AuditRecordView {
        event_id,
        sequence_number: sequence,
        timestamp,
        session_id,
        manifest_id,
        raw_proposal_hash: proposal_hash,
        outcome,
    }
}

/// Builds the record of an emission in the services' session and manifest.
pub fn audit_record(services: &StepServices, emission: &AuditEmission, event_id: String) -> (r:
    AuditRecord)
    ensures
        r@ == emission_record(
            event_id@,
            emission.sequence,
            emission.timestamp,
            services.session_id@,
            services.manifest.manifest_id@,
            emission.proposal_hash@,
            emission.outcome@,
        ),
{
    AuditRecord {
        event_id,
        sequence_number: emission.sequence,
        timestamp: emission.timestamp,
        session_id: services.session_id.clone(),
        manifest_id: services.manifest.manifest_id.clone(),
        raw_proposal_hash: emission.proposal_hash.to_owned(),
        outcome: emission.outcome.duplicate(),
    }
}

/// Whether the services' sink holds a record of `outcome`, with some event
/// identifier, under these details.
pub open spec fn logged(
    services: &StepServices,
    sequence: u64,
    timestamp: u64,
    proposal_hash: Seq<char>,
    outcome: AuditOutcomeView,
) -> bool {
    exists|id: Seq<char>|
        uuid_v4_text(id) && services.audit_sink.emit_answer(
            emission_record(
                id,
                sequence,
                timestamp,
                services.session_id@,
                services.manifest.manifest_id@,
                proposal_hash,
                outcome,
            ),
            Ok(()),
        )
}

/// What writing a record comes to, given the sink's answer: success, or an
/// audit-system failure reading `<failure context>: <text of the sink's error>`.
pub open spec fn audit_write_result(
    failure_context: Seq<char>,
    sink_result: Result<(), BoundaryErrorView>,
) -> Result<(), BoundaryErrorView> {
    match sink_result {
        Ok(_) => Ok(()),
        Err(x) => Err(
            BoundaryErrorView::AuditSystemFailure(failure_context + ": "@ + error_message(x)),
        ),
    }
}

/// Turns the sink's answer into the result of writing a record (see
/// [`audit_write_result`]).
pub fn audit_write_outcome(failure_context: &str, sink_result: Result<(), BoundaryError>) -> (r:
    Result<(), BoundaryError>)
    ensures
        match sink_result {
            Ok(_) => r is Ok,
            Err(x) => r matches Err(e) && audit_write_result(failure_context@, Err(x@)) == Err::<
                (),
                BoundaryErrorView,
            >(e@),
        },
{
    match sink_result {
        Ok(()) => Ok(()),
        Err(audit_err) => {
            let mut text = String::new();
            push_str(&mut text, failure_context);
            push_str(&mut text, ": ");
            let m = audit_err.message();
            push_str(&mut text, m.as_str());
            Err(BoundaryError::AuditSystemFailure(text))
        },
    }
}

/// Writes an emission's record (see [`audit_record`]) through the services'
/// sink under a fresh event identifier, and reports what the sink answered as
/// [`audit_write_result`] reads it. The sink alone decides whether the write
/// succeeds.
pub fn emit_audit(services: &StepServices, emission: AuditEmission<'_>) -> (r: Result<
    (),
    BoundaryError,
>)
    ensures
        exists|id: Seq<char>, sink: Result<(), BoundaryErrorView>|
            uuid_v4_text(id) && #[trigger] services.audit_sink.emit_answer(
                emission_record(
                    id,
                    emission.sequence,
                    emission.timestamp,
                    services.session_id@,
                    services.manifest.manifest_id@,
                    emission.proposal_hash@,
                    emission.outcome@,
                ),
                sink,
            ) && answer_view(r) == audit_write_result(emission.failure_context@, sink),
        r is Ok ==> logged(
            services,
            emission.sequence,
            emission.timestamp,
            emission.proposal_hash@,
            emission.outcome@,
        ),
        r matches Err(e) ==> exists|x: BoundaryErrorView|
            e@ == BoundaryErrorView::AuditSystemFailure(
                emission.failure_context@ + ": "@ + error_message(x),
            ),
{
    let id = random_uuid_text();
    let ghost id_view = id@;
    let record = audit_record(services, &emission, id);
    let sink_result = services.audit_sink.emit_record(record);
    let r = audit_write_outcome(emission.failure_context, sink_result);
    assert(services.audit_sink.emit_answer(
        emission_record(
            id_view,
            emission.sequence,
            emission.timestamp,
            services.session_id@,
            services.manifest.manifest_id@,
            emission.proposal_hash@,
            emission.outcome@,
        ),
        answer_view(sink_result),
    ));
    assert(answer_view(r) == audit_write_result(emission.failure_context@, answer_view(sink_result)));
    r
}

} // verus!
