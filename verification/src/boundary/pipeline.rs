//! One step of the boundary pipeline.
//!
//! A step takes one raw model payload through the budget check, parsing,
//! validation, the policy gate, the pre-execution audit, approval
//! consumption, execution and the completion audit. It is a state machine:
//! [`pipeline_begin`] and [`pipeline_step`] say, for each state and each
//! answer of a service, what happens next. [`PipelineStep::start`] runs the
//! machine with the step's services up to execution, which the caller
//! performs; [`PipelineStep::resume`] takes the executor's answer and ends
//! the step.

use vstd::prelude::*;
use vstd::pervasive::unreached;
use crate::boundary::audit::{AuditOutcome, AuditOutcomeView};
use crate::boundary::crypto::{sha256, sha256_digest};
use crate::boundary::errors::{answer_view, error_message, policy_denial, BoundaryError, BoundaryErrorView};
use crate::boundary::identifiers::ApprovalId;
use crate::boundary::llm::{
    proposal_capability, RawOutputParser, RawToolProposal, RawToolProposalView, PAYLOAD_CEILING,
};
use crate::boundary::manifest::{ScopeManifest, ScopeManifestView, ToolCapability};
use crate::boundary::text::{hex_lower, push_str, to_hex_lower};
use crate::boundary::tool::{
    invocation_digest, kind_capability, validate_proposal, InvocationView,
    ValidatedToolInvocation,
};
use crate::boundary::{
    approval_required, emit_audit, gate_admits, gate_passed, logged, ApprovalReservation, AuditEmission, PolicyGate,
    ReservationView, StepServices,
};

verus! {

/// Lower-case hex SHA-256 of the raw payload: how audit records name a proposal.
pub open spec fn proposal_digest(payload: Seq<u8>) -> Seq<char> {
    hex_lower(sha256(payload))
}

/// The parse verdict on a payload, given what the JSON decoder made of it.
pub open spec fn parse_outcome(payload: Seq<u8>, decoded: Result<RawToolProposalView, Seq<char>>) -> Result<
    RawToolProposalView,
    BoundaryErrorView,
> {
    if payload.len() > PAYLOAD_CEILING {
        Err(BoundaryErrorView::PayloadLimitExceeded(payload.len(), PAYLOAD_CEILING as nat))
    } else {
        match decoded {
            Ok(p) => Ok(p),
            Err(m) => Err(BoundaryErrorView::MalformedProviderPayload(m)),
        }
    }
}

/// The validated invocation a proposal becomes under a manifest, or the refusal.
pub open spec fn validated_invocation(p: RawToolProposalView, m: ScopeManifestView) -> Result<
    InvocationView,
    BoundaryErrorView,
> {
    match validate_proposal(p, m) {
        Ok(k) => Ok(InvocationView { kind: k, invocation_hash: invocation_digest(k) }),
        Err(e) => Err(e),
    }
}

/// What the caller reports after carrying out a [`PipelineAction`].
#[derive(Debug)]
pub enum PipelineEvent {
    /// `EmitAudit`: the result of writing the record.
    AuditEmitted(Result<(), BoundaryError>),
    /// `EvaluateGate`: the policy gate's decision.
    GateDecided(Result<ApprovalReservation, BoundaryError>),
    /// `ReleaseReservation`: the release was attempted (its result is not used).
    ReservationReleased,
    /// `ConsumeApproval`: the result of consuming the reserved approval.
    ApprovalConsumed(Result<(), BoundaryError>),
    /// `Execute`: what the executor returned.
    Executed(Result<String, BoundaryError>),
}

/// What the step needs done next.
#[derive(Debug)]
pub enum PipelineAction {
    /// Write an audit record with this sequence number and outcome; on
    /// failure, prefix the error with `failure_context`.
    EmitAudit { sequence: u64, outcome: AuditOutcome, failure_context: String },
    /// Run the policy gate on the pending invocation.
    EvaluateGate,
    /// Release the reserved approval.
    ReleaseReservation(ApprovalId),
    /// Consume the reserved approval.
    ConsumeApproval(ApprovalId),
    /// Carry out the invocation.
    Execute(ValidatedToolInvocation),
    /// The step is over, with this result.
    Finish(Result<String, BoundaryError>),
}

enum PipelineStage {
    AwaitDenialAudit { error: BoundaryError },
    AwaitGate { invocation: ValidatedToolInvocation },
    AwaitStartAudit { invocation: ValidatedToolInvocation, reservation: ApprovalReservation },
    AwaitRelease { audit_error: BoundaryError },
    AwaitConsumption { invocation: ValidatedToolInvocation },
    AwaitExecution { capability: ToolCapability },
    AwaitSuccessAudit { output: String },
    AwaitFailureAudit { error: BoundaryError },
    Finished,
}

/// One pipeline step in progress.
pub struct PipelineStep {
    proposal_hash: String,
    timestamp: u64,
    sequence: u64,
    remaining_budget: u32,
    stage: PipelineStage,
}

pub enum PipelineStageView {
    AwaitDenialAudit { error: BoundaryErrorView },
    AwaitGate { invocation: InvocationView },
    AwaitStartAudit { invocation: InvocationView, reservation: ReservationView },
    AwaitRelease { audit_error: BoundaryErrorView },
    AwaitConsumption { invocation: InvocationView },
    AwaitExecution { capability: ToolCapability },
    AwaitSuccessAudit { output: Seq<char> },
    AwaitFailureAudit { error: BoundaryErrorView },
    Finished,
}

pub struct PipelineView {
    pub proposal_hash: Seq<char>,
    pub timestamp: u64,
    pub sequence: nat,
    pub remaining_budget: nat,
    pub stage: PipelineStageView,
}

pub enum PipelineEventView {
    AuditEmitted(Result<(), BoundaryErrorView>),
    GateDecided(Result<ReservationView, BoundaryErrorView>),
    ReservationReleased,
    ApprovalConsumed(Result<(), BoundaryErrorView>),
    Executed(Result<Seq<char>, BoundaryErrorView>),
}

pub enum PipelineActionView {
    EmitAudit { sequence: nat, outcome: AuditOutcomeView, failure_context: Seq<char> },
    EvaluateGate,
    ReleaseReservation(Seq<char>),
    ConsumeApproval(Seq<char>),
    Execute(InvocationView),
    Finish(Result<Seq<char>, BoundaryErrorView>),
}


impl View for PipelineStep {
    type V = PipelineView;

    closed spec fn view(&self) -> PipelineView {
        PipelineView {
            proposal_hash: self.proposal_hash@,
            timestamp: self.timestamp,
            sequence: self.sequence as nat,
            remaining_budget: self.remaining_budget as nat,
            stage: match &self.stage {
                PipelineStage::AwaitDenialAudit { error } => PipelineStageView::AwaitDenialAudit {
                    error: error@,
                },
                PipelineStage::AwaitGate { invocation } => PipelineStageView::AwaitGate {
                    invocation: invocation@,
                },
                PipelineStage::AwaitStartAudit { invocation, reservation } =>
                    PipelineStageView::AwaitStartAudit {
                    invocation: invocation@,
                    reservation: reservation@,
                },
                PipelineStage::AwaitRelease { audit_error } => PipelineStageView::AwaitRelease {
                    audit_error: audit_error@,
                },
                PipelineStage::AwaitConsumption { invocation } =>
                    PipelineStageView::AwaitConsumption { invocation: invocation@ },
                PipelineStage::AwaitExecution { capability } => PipelineStageView::AwaitExecution {
                    capability: *capability,
                },
                PipelineStage::AwaitSuccessAudit { output } => PipelineStageView::AwaitSuccessAudit {
                    output: output@,
                },
                PipelineStage::AwaitFailureAudit { error } => PipelineStageView::AwaitFailureAudit {
                    error: error@,
                },
                PipelineStage::Finished => PipelineStageView::Finished,
            },
        }
    }
}

impl View for PipelineEvent {
    type V = PipelineEventView;

    open spec fn view(&self) -> PipelineEventView {
        match self {
            PipelineEvent::AuditEmitted(r) => PipelineEventView::AuditEmitted(answer_view(*r)),
            PipelineEvent::GateDecided(Ok(res)) => PipelineEventView::GateDecided(Ok(res@)),
            PipelineEvent::GateDecided(Err(e)) => PipelineEventView::GateDecided(Err(e@)),
            PipelineEvent::ReservationReleased => PipelineEventView::ReservationReleased,
            PipelineEvent::ApprovalConsumed(r) => PipelineEventView::ApprovalConsumed(
                answer_view(*r),
            ),
            PipelineEvent::Executed(Ok(out)) => PipelineEventView::Executed(Ok(out@)),
            PipelineEvent::Executed(Err(e)) => PipelineEventView::Executed(Err(e@)),
        }
    }
}

impl View for PipelineAction {
    type V = PipelineActionView;

    open spec fn view(&self) -> PipelineActionView {
        match self {
            PipelineAction::EmitAudit { sequence, outcome, failure_context } =>
                PipelineActionView::EmitAudit {
                sequence: *sequence as nat,
                outcome: outcome@,
                failure_context: failure_context@,
            },
            PipelineAction::EvaluateGate => PipelineActionView::EvaluateGate,
            PipelineAction::ReleaseReservation(id) => PipelineActionView::ReleaseReservation(id@),
            PipelineAction::ConsumeApproval(id) => PipelineActionView::ConsumeApproval(id@),
            PipelineAction::Execute(inv) => PipelineActionView::Execute(inv@),
            PipelineAction::Finish(Ok(out)) => PipelineActionView::Finish(Ok(out@)),
            PipelineAction::Finish(Err(e)) => PipelineActionView::Finish(Err(e@)),
        }
    }
}

/// How many more audit records a stage can still count.
pub open spec fn pending_increments(stage: PipelineStageView) -> nat {
    match stage {
        PipelineStageView::AwaitGate { .. } => 2,
        PipelineStageView::AwaitStartAudit { .. } => 2,
        PipelineStageView::AwaitRelease { .. } => 0,
        PipelineStageView::Finished => 0,
        _ => 1,
    }
}

pub open spec fn audit_action(sequence: nat, outcome: AuditOutcomeView, context: Seq<char>) -> PipelineActionView {
    PipelineActionView::EmitAudit { sequence, outcome, failure_context: context }
}

/// Where a step starts: the budget check, then parsing, then validation.
///
/// With no budget left the step is refused (the budget stays at zero);
/// otherwise one unit of budget is spent, and a parse or validation failure is
/// logged as such. A valid invocation goes to the policy gate.
pub open spec fn pipeline_begin(
    payload: Seq<u8>,
    decoded: Result<RawToolProposalView, Seq<char>>,
    m: ScopeManifestView,
    sequence: nat,
    budget: nat,
    timestamp: u64,
) -> (PipelineView, PipelineActionView) {
    let base = PipelineView {
        proposal_hash: proposal_digest(payload),
        timestamp,
        sequence,
        remaining_budget: budget,
        stage: PipelineStageView::Finished,
    };
    if budget == 0 {
        let err = BoundaryErrorView::PolicyDenial("Transaction step budget exhausted"@);
        (
            PipelineView { stage: PipelineStageView::AwaitDenialAudit { error: err }, ..base },
            audit_action(
                sequence,
                AuditOutcomeView::PolicyDenied { reason: error_message(err) },
                "Terminal budget denial logging failed"@,
            ),
        )
    } else {
        let spent = PipelineView { remaining_budget: (budget - 1) as nat, ..base };
        match parse_outcome(payload, decoded) {
            Err(e) => (
                PipelineView { stage: PipelineStageView::AwaitDenialAudit { error: e }, ..spent },
                audit_action(
                    sequence,
                    AuditOutcomeView::ParseDenied { reason: error_message(e) },
                    "Terminal parse denial logging failed"@,
                ),
            ),
            Ok(p) => match validated_invocation(p, m) {
                Err(e) => (
                    PipelineView {
                        stage: PipelineStageView::AwaitDenialAudit { error: e },
                        ..spent
                    },
                    audit_action(
                        sequence,
                        AuditOutcomeView::ValidationDenied {
                            proposed_capability: proposal_capability(p),
                            reason: error_message(e),
                        },
                        "Terminal validation denial logging failed"@,
                    ),
                ),
                Ok(inv) => (
                    PipelineView {
                        stage: PipelineStageView::AwaitGate { invocation: inv },
                        ..spent
                    },
                    PipelineActionView::EvaluateGate,
                ),
            },
        }
    }
}

/// Which events each stage takes.
pub open spec fn pipeline_accepts(s: PipelineView, e: PipelineEventView) -> bool {
    match s.stage {
        PipelineStageView::AwaitDenialAudit { .. } => e is AuditEmitted,
        PipelineStageView::AwaitGate { .. } => e is GateDecided,
        PipelineStageView::AwaitStartAudit { .. } => e is AuditEmitted,
        PipelineStageView::AwaitRelease { .. } => e is ReservationReleased,
        PipelineStageView::AwaitConsumption { .. } => e is ApprovalConsumed,
        PipelineStageView::AwaitExecution { .. } => e is Executed,
        PipelineStageView::AwaitSuccessAudit { .. } => e is AuditEmitted,
        PipelineStageView::AwaitFailureAudit { .. } => e is AuditEmitted,
        PipelineStageView::Finished => false,
    }
}

pub open spec fn finish_with(s: PipelineView, sequence: nat, r: Result<Seq<char>, BoundaryErrorView>) -> (
    PipelineView,
    PipelineActionView,
) {
    (
        PipelineView { sequence, stage: PipelineStageView::Finished, ..s },
        PipelineActionView::Finish(r),
    )
}

/// The audit-failure error reported when an execution failed and logging
/// that failure failed too.
pub open spec fn double_failure(err: BoundaryErrorView, audit_err: BoundaryErrorView) -> BoundaryErrorView {
    BoundaryErrorView::AuditSystemFailure(
        "Execution failed ["@ + error_message(err) + "], AND logging failed ["@ + error_message(
            audit_err,
        ) + "]"@,
    )
}

/// One step of the pipeline after the first.
///
/// A logged denial ends the step with the denial (a failed log ends it with
/// the log failure). A gate refusal is logged as a policy denial. A gate pass
/// is logged as the start of execution before anything runs; if that record
/// cannot be written, a reserved approval is released and the step ends. A
/// reserved approval is consumed before execution; a failed consumption is
/// logged. Execution results are logged; the step succeeds only once its
/// success record is written.
pub open spec fn pipeline_step(s: PipelineView, e: PipelineEventView) -> (PipelineView, PipelineActionView) {
    match s.stage {
        PipelineStageView::AwaitDenialAudit { error } => match e {
            PipelineEventView::AuditEmitted(Ok(_)) => finish_with(s, s.sequence + 1, Err(error)),
            PipelineEventView::AuditEmitted(Err(ae)) => finish_with(s, s.sequence, Err(ae)),
            _ => finish_with(s, s.sequence, Err(error)),
        },
        PipelineStageView::AwaitGate { invocation } => match e {
            PipelineEventView::GateDecided(Err(ge)) => (
                PipelineView { stage: PipelineStageView::AwaitDenialAudit { error: ge }, ..s },
                audit_action(
                    s.sequence,
                    AuditOutcomeView::PolicyDenied { reason: error_message(ge) },
                    "Terminal policy denial logging failed"@,
                ),
            ),
            PipelineEventView::GateDecided(Ok(reservation)) => (
                PipelineView {
                    stage: PipelineStageView::AwaitStartAudit { invocation, reservation },
                    ..s
                },
                audit_action(
                    s.sequence,
                    AuditOutcomeView::ExecutionStarted {
                        capability: kind_capability(invocation.kind),
                    },
                    "Pre-execution audit logging failed"@,
                ),
            ),
            _ => finish_with(s, s.sequence, Err(BoundaryErrorView::PolicyDenial(seq![]))),
        },
        PipelineStageView::AwaitStartAudit { invocation, reservation } => match e {
            PipelineEventView::AuditEmitted(Err(ae)) => match reservation {
                ReservationView::Reserved(id) => (
                    PipelineView {
                        stage: PipelineStageView::AwaitRelease { audit_error: ae },
                        ..s
                    },
                    PipelineActionView::ReleaseReservation(id),
                ),
                ReservationView::NotRequired => finish_with(s, s.sequence, Err(ae)),
            },
            _ => match reservation {
                ReservationView::Reserved(id) => (
                    PipelineView {
                        sequence: s.sequence + 1,
                        stage: PipelineStageView::AwaitConsumption { invocation },
                        ..s
                    },
                    PipelineActionView::ConsumeApproval(id),
                ),
                ReservationView::NotRequired => (
                    PipelineView {
                        sequence: s.sequence + 1,
                        stage: PipelineStageView::AwaitExecution {
                            capability: kind_capability(invocation.kind),
                        },
                        ..s
                    },
                    PipelineActionView::Execute(invocation),
                ),
            },
        },
        PipelineStageView::AwaitRelease { audit_error } => finish_with(
            s,
            s.sequence,
            Err(audit_error),
        ),
        PipelineStageView::AwaitConsumption { invocation } => match e {
            PipelineEventView::ApprovalConsumed(Err(ce)) => (
                PipelineView { stage: PipelineStageView::AwaitDenialAudit { error: ce }, ..s },
                audit_action(
                    s.sequence,
                    AuditOutcomeView::ApprovalConsumptionFailed { reason: error_message(ce) },
                    "Failed to log consumption failure"@,
                ),
            ),
            _ => (
                PipelineView {
                    stage: PipelineStageView::AwaitExecution {
                        capability: kind_capability(invocation.kind),
                    },
                    ..s
                },
                PipelineActionView::Execute(invocation),
            ),
        },
        PipelineStageView::AwaitExecution { capability } => match e {
            PipelineEventView::Executed(Ok(output)) => (
                PipelineView { stage: PipelineStageView::AwaitSuccessAudit { output }, ..s },
                audit_action(
                    s.sequence,
                    AuditOutcomeView::ExecutionSucceeded { capability },
                    "Execution succeeded, but completion audit failed"@,
                ),
            ),
            PipelineEventView::Executed(Err(xe)) => (
                PipelineView { stage: PipelineStageView::AwaitFailureAudit { error: xe }, ..s },
                audit_action(
                    s.sequence,
                    AuditOutcomeView::ExecutionFailed { error: error_message(xe) },
                    "Execution failure logging failed"@,
                ),
            ),
            _ => finish_with(s, s.sequence, Err(BoundaryErrorView::PolicyDenial(seq![]))),
        },
        PipelineStageView::AwaitSuccessAudit { output } => match e {
            PipelineEventView::AuditEmitted(Err(ae)) => finish_with(s, s.sequence, Err(ae)),
            _ => finish_with(s, s.sequence + 1, Ok(output)),
        },
        PipelineStageView::AwaitFailureAudit { error } => match e {
            PipelineEventView::AuditEmitted(Err(ae)) => finish_with(
                s,
                s.sequence + 1,
                Err(double_failure(error, ae)),
            ),
            _ => finish_with(s, s.sequence + 1, Err(error)),
        },
        PipelineStageView::Finished => finish_with(
            s,
            s.sequence,
            Err(BoundaryErrorView::PolicyDenial(seq![])),
        ),
    }
}

// ---------------------------------------------------------------- laws of the pipeline

proof fn lemma_unit_events(e: PipelineEventView)
    ensures
        (e matches PipelineEventView::AuditEmitted(r) && r is Ok) ==> e == PipelineEventView::AuditEmitted(Ok(())),
        (e matches PipelineEventView::ApprovalConsumed(r) && r is Ok) ==> e == PipelineEventView::ApprovalConsumed(Ok(())),
{
    match e {
        PipelineEventView::AuditEmitted(Ok(u)) => {
            assert(u == ());
        },
        PipelineEventView::ApprovalConsumed(Ok(u)) => {
            assert(u == ());
        },
        _ => {},
    }
}

/// Law: nothing executes before its start is on the audit trail. An
/// invocation is handed to the executor only right after the start record was
/// written (when no approval was needed) or right after its reserved approval
/// was consumed.
pub proof fn lemma_execution_follows_logged_start(s: PipelineView, e: PipelineEventView)
    requires
        pipeline_accepts(s, e),
    ensures
        pipeline_step(s, e).1 is Execute ==> {
            ||| (s.stage matches PipelineStageView::AwaitStartAudit { reservation, .. }
                && reservation is NotRequired && e == PipelineEventView::AuditEmitted(Ok(())))
            ||| (s.stage is AwaitConsumption && e == PipelineEventView::ApprovalConsumed(Ok(())))
        },
{
    lemma_unit_events(e);
}

/// Law: a reserved approval is consumed only after the start record was
/// written, and a step waits on consumption only when an approval was reserved.
pub proof fn lemma_consumption_follows_logged_start(s: PipelineView, e: PipelineEventView)
    requires
        pipeline_accepts(s, e),
    ensures
        pipeline_step(s, e).1 is ConsumeApproval ==> (s.stage matches PipelineStageView::AwaitStartAudit {
            reservation,
            ..
        } && reservation is Reserved && e == PipelineEventView::AuditEmitted(Ok(()))),
        pipeline_step(s, e).0.stage is AwaitConsumption ==> (s.stage matches PipelineStageView::AwaitStartAudit {
            reservation,
            ..
        } && reservation is Reserved && e == PipelineEventView::AuditEmitted(Ok(()))),
{
    lemma_unit_events(e);
}

/// Law: a step succeeds only once its success record is written.
pub proof fn lemma_success_only_after_completion_logged(s: PipelineView, e: PipelineEventView)
    requires
        pipeline_accepts(s, e),
    ensures
        pipeline_step(s, e).1 matches PipelineActionView::Finish(Ok(_)) ==> (s.stage is AwaitSuccessAudit
            && e == PipelineEventView::AuditEmitted(Ok(()))),
{
    lemma_unit_events(e);
}

/// Law: if the start record cannot be written, a reserved approval is released.
pub proof fn lemma_unlogged_start_releases_reservation(s: PipelineView, e: PipelineEventView)
    requires
        pipeline_accepts(s, e),
        s.stage matches PipelineStageView::AwaitStartAudit { reservation, .. } && reservation is Reserved,
        e is AuditEmitted && e->AuditEmitted_0 is Err,
    ensures
        pipeline_step(s, e).1 == PipelineActionView::ReleaseReservation(
            s.stage->AwaitStartAudit_reservation->Reserved_0,
        ),
{
    lemma_unit_events(e);
}

/// Law: the sequence number advances by one for each record written, and
/// also after a failed attempt to log an execution failure; never otherwise.
pub proof fn lemma_sequence_counts_records(s: PipelineView, e: PipelineEventView)
    requires
        pipeline_accepts(s, e),
    ensures
        pipeline_step(s, e).0.sequence == s.sequence + if e == PipelineEventView::AuditEmitted(Ok(()))
            || s.stage is AwaitFailureAudit {
            1nat
        } else {
            0nat
        },
{
    lemma_unit_events(e);
}

/// Law: every record a step asks for carries the step's next sequence number.
pub proof fn lemma_records_are_numbered_in_order(s: PipelineView, e: PipelineEventView)
    requires
        pipeline_accepts(s, e),
    ensures
        pipeline_step(s, e).1 matches PipelineActionView::EmitAudit { sequence, .. } ==> sequence
            == pipeline_step(s, e).0.sequence,
{
    lemma_unit_events(e);
}

/// Law: the step budget. With none left, the step is refused as a policy
/// denial and the budget stays at zero; otherwise exactly one unit is spent,
/// and no later stage touches the budget.
pub proof fn lemma_step_budget(
    payload: Seq<u8>,
    decoded: Result<RawToolProposalView, Seq<char>>,
    m: ScopeManifestView,
    sequence: nat,
    budget: nat,
    timestamp: u64,
    s: PipelineView,
    e: PipelineEventView,
)
    ensures
        budget == 0 ==> {
            &&& pipeline_begin(payload, decoded, m, sequence, budget, timestamp).0.remaining_budget == 0
            &&& pipeline_begin(payload, decoded, m, sequence, budget, timestamp).1 == audit_action(
                sequence,
                AuditOutcomeView::PolicyDenied {
                    reason: "Policy gate enforcement denial: Transaction step budget exhausted"@,
                },
                "Terminal budget denial logging failed"@,
            )
        },
        budget > 0 ==> pipeline_begin(payload, decoded, m, sequence, budget, timestamp).0.remaining_budget
            == budget - 1,
        pipeline_step(s, e).0.remaining_budget == s.remaining_budget,
{
    assert(error_message(BoundaryErrorView::PolicyDenial("Transaction step budget exhausted"@))
        =~= "Policy gate enforcement denial: Transaction step budget exhausted"@) by {
        reveal_strlit("Policy gate enforcement denial: ");
        reveal_strlit("Transaction step budget exhausted");
        reveal_strlit("Policy gate enforcement denial: Transaction step budget exhausted");
    }
}

/// Law: only a proposal that passed validation reaches the policy gate.
pub proof fn lemma_gate_sees_only_valid_invocations(
    payload: Seq<u8>,
    decoded: Result<RawToolProposalView, Seq<char>>,
    m: ScopeManifestView,
    sequence: nat,
    budget: nat,
    timestamp: u64,
)
    ensures
        pipeline_begin(payload, decoded, m, sequence, budget, timestamp).1 is EvaluateGate ==> {
            &&& budget > 0
            &&& parse_outcome(payload, decoded) is Ok
            &&& validated_invocation(parse_outcome(payload, decoded)->Ok_0, m) is Ok
            &&& pipeline_begin(payload, decoded, m, sequence, budget, timestamp).0.stage
                == PipelineStageView::AwaitGate {
                invocation: validated_invocation(parse_outcome(payload, decoded)->Ok_0, m)->Ok_0,
            }
        },
{
}

/// The text an audit outcome records about what went wrong, if anything.
pub open spec fn outcome_reason(o: AuditOutcomeView) -> Option<Seq<char>> {
    match o {
        AuditOutcomeView::ParseDenied { reason } => Some(reason),
        AuditOutcomeView::ValidationDenied { reason, .. } => Some(reason),
        AuditOutcomeView::PolicyDenied { reason } => Some(reason),
        AuditOutcomeView::ApprovalConsumptionFailed { reason } => Some(reason),
        AuditOutcomeView::ExecutionFailed { error } => Some(error),
        _ => None,
    }
}

/// Whether a stage holds an error that is to be logged before the step ends
/// with it.
pub open spec fn stage_pending_error(stage: PipelineStageView) -> Option<BoundaryErrorView> {
    match stage {
        PipelineStageView::AwaitDenialAudit { error } => Some(error),
        PipelineStageView::AwaitFailureAudit { error } => Some(error),
        _ => None,
    }
}

/// Law: every refusal and every failure is put on the audit trail with its
/// reason. Whenever a step comes to hold an error (at entry, or later), the
/// action it asks for is the record of that error, under the step's next
/// sequence number, its outcome carrying the error's text.
pub proof fn lemma_refusals_are_logged_with_their_reason(
    payload: Seq<u8>,
    decoded: Result<RawToolProposalView, Seq<char>>,
    m: ScopeManifestView,
    sequence: nat,
    budget: nat,
    timestamp: u64,
    s: PipelineView,
    e: PipelineEventView,
)
    ensures
        ({
            let (b, a) = pipeline_begin(payload, decoded, m, sequence, budget, timestamp);
            stage_pending_error(b.stage) matches Some(err) ==> (a matches PipelineActionView::EmitAudit {
                sequence: n,
                outcome,
                ..
            } && n == b.sequence && outcome_reason(outcome) == Some(error_message(err)))
        }),
        pipeline_accepts(s, e) ==> ({
            let (t, a) = pipeline_step(s, e);
            stage_pending_error(t.stage) matches Some(err) ==> (a matches PipelineActionView::EmitAudit {
                sequence: n,
                outcome,
                ..
            } && n == t.sequence && outcome_reason(outcome) == Some(error_message(err)))
        }),
{
    lemma_unit_events(e);
}

/// Law: a step never ends in an error unrecorded. When it ends with an error,
/// either the record of exactly that error has just been written, or the
/// error is the audit trail's own failure: the failed write itself, that
/// failure joined to the execution failure it could not record, or (after a
/// reserved approval was released) the failed write of the start record.
pub proof fn lemma_errors_end_logged_or_as_audit_failures(s: PipelineView, e: PipelineEventView)
    requires
        pipeline_accepts(s, e),
    ensures
        pipeline_step(s, e).1 matches PipelineActionView::Finish(Err(x)) ==> {
            ||| (stage_pending_error(s.stage) == Some(x) && e == PipelineEventView::AuditEmitted(Ok(())))
            ||| e == PipelineEventView::AuditEmitted(Err(x))
            ||| (s.stage matches PipelineStageView::AwaitFailureAudit { error } && e matches PipelineEventView::AuditEmitted(
                Err(ae),
            ) && x == double_failure(error, ae))
            ||| (s.stage matches PipelineStageView::AwaitRelease { audit_error } && x == audit_error)
        },
{
    lemma_unit_events(e);
}

/// The budget left after `n` steps in a row, each starting with what the
/// one before left: a step with budget left spends one unit, a step with none
/// leaves it at zero.
pub open spec fn budget_after(b0: nat, n: nat) -> nat
    decreases n,
{
    if n == 0 {
        b0
    } else {
        let b = budget_after(b0, (n - 1) as nat);
        if b == 0 {
            0
        } else {
            (b - 1) as nat
        }
    }
}

/// How many of `n` steps in a row start with budget left: only those can
/// reach execution.
pub open spec fn steps_with_budget(b0: nat, n: nat) -> nat
    decreases n,
{
    if n == 0 {
        0
    } else {
        steps_with_budget(b0, (n - 1) as nat) + if budget_after(b0, (n - 1) as nat) > 0 {
            1nat
        } else {
            0nat
        }
    }
}

/// Law: over `n` steps sharing a budget of `b0`, the budget ends at `b0 - n`
/// (zero if `n` exceeds it), and at most `min(n, b0)` steps can execute.
pub proof fn lemma_budget_over_steps(b0: nat, n: nat)
    ensures
        budget_after(b0, n) == if b0 >= n {
            (b0 - n) as nat
        } else {
            0
        },
        steps_with_budget(b0, n) == if b0 >= n {
            n
        } else {
            b0
        },
    decreases n,
{
    if n > 0 {
        lemma_budget_over_steps(b0, (n - 1) as nat);
    }
}

/// Law: the budget over successive steps as one statement. If each step
/// starts with what the one before left (each leaving `budget_after(b, 1)` of
/// the `b` it was given, as [`PipelineStep::start`] states), then after `n`
/// steps `b0 - n` is left (zero if `n` exceeds `b0`), and exactly `min(n, b0)`
/// of them started with budget, the only ones that can execute.
pub proof fn lemma_budget_over_calls(budgets: Seq<nat>)
    requires
        budgets.len() >= 1,
        forall|i: int| 0 <= i < budgets.len() - 1 ==> #[trigger] budgets[i + 1] == budget_after(budgets[i], 1),
    ensures
        forall|i: int| 0 <= i < budgets.len() ==> #[trigger] budgets[i] == budget_after(budgets[0], i as nat),
        budgets.last() == if budgets[0] >= budgets.len() - 1 {
            (budgets[0] - (budgets.len() - 1)) as nat
        } else {
            0
        },
        steps_with_budget(budgets[0], (budgets.len() - 1) as nat) == if budgets[0] >= budgets.len() - 1 {
            (budgets.len() - 1) as nat
        } else {
            budgets[0]
        },
    decreases budgets.len(),
{
    let n = (budgets.len() - 1) as nat;
    if budgets.len() > 1 {
        let prefix = budgets.drop_last();
        assert forall|i: int| 0 <= i < prefix.len() - 1 implies #[trigger] prefix[i + 1] == budget_after(prefix[i], 1) by {
            assert(prefix[i + 1] == budgets[i + 1]);
            assert(prefix[i] == budgets[i]);
        }
        lemma_budget_over_calls(prefix);
        assert forall|i: int| 0 <= i < budgets.len() implies #[trigger] budgets[i] == budget_after(budgets[0], i as nat) by {
            if i < prefix.len() {
                assert(prefix[i] == budgets[i]);
            } else {
                let j = i - 1;
                assert(prefix[j] == budgets[j]);
                assert(budgets[j + 1] == budget_after(budgets[j], 1));
                assert(budget_after(budgets[j], 1) == budget_after(budgets[0], (j + 1) as nat)) by {
                    reveal_with_fuel(budget_after, 2);
                }
            }
        }
    }
    lemma_budget_over_steps(budgets[0], n);
    assert(budgets[n as int] == budget_after(budgets[0], n));
}

/// How many of successive steps reached execution.
pub open spec fn executions(executed: Seq<bool>) -> nat
    decreases executed.len(),
{
    if executed.len() == 0 {
        0
    } else {
        executions(executed.drop_last()) + if executed.last() {
            1nat
        } else {
            0nat
        }
    }
}

/// Law: over `n` successive steps sharing one budget `b0`, at most
/// `min(n, b0)` reach execution. Step `i` starts with `budgets[i]` and leaves
/// `budget_after(budgets[i], 1)` to the next, and it executes only with
/// budget left, as [`PipelineStep::start`] states of each step.
pub proof fn lemma_executions_within_budget(budgets: Seq<nat>, executed: Seq<bool>)
    requires
        budgets.len() == executed.len() + 1,
        forall|i: int| 0 <= i < executed.len() ==> #[trigger] budgets[i + 1] == budget_after(budgets[i], 1),
        forall|i: int| 0 <= i < executed.len() ==> #[trigger] executed[i] ==> budgets[i] > 0,
    ensures
        executions(executed) <= steps_with_budget(budgets[0], executed.len()),
        executions(executed) <= if budgets[0] >= executed.len() {
            executed.len() as nat
        } else {
            budgets[0]
        },
    decreases executed.len(),
{
    let n = executed.len();
    lemma_budget_over_calls(budgets);
    lemma_budget_over_steps(budgets[0], n);
    if n > 0 {
        let bp = budgets.drop_last();
        let ep = executed.drop_last();
        assert forall|i: int| 0 <= i < ep.len() implies #[trigger] bp[i + 1] == budget_after(bp[i], 1) by {
            assert(bp[i + 1] == budgets[i + 1]);
            assert(bp[i] == budgets[i]);
        }
        assert forall|i: int| 0 <= i < ep.len() && #[trigger] ep[i] implies bp[i] > 0 by {
            assert(ep[i] == executed[i]);
            assert(bp[i] == budgets[i]);
        }
        lemma_executions_within_budget(bp, ep);
        assert(bp[0] == budgets[0]);
        assert(executed.last() == executed[n - 1]);
        assert(budgets[n - 1] == budget_after(budgets[0], (n - 1) as nat));
    }
}

/// Law: steps sharing one record counter number their records apart. Step
/// `i` starts with the counter at `counters[i]` and hands `counters[i + 1]`
/// on, never lower; its records carry numbers from `counters[i]` up to
/// below `counters[i + 1]`, as [`PipelineStep::start`] and
/// [`PipelineStep::resume`] state. A record `m` of an earlier step then has
/// a lower number than a record `n` of a later one, so no number repeats.
pub proof fn lemma_successive_steps_number_records_apart(
    counters: Seq<nat>,
    i: int,
    j: int,
    m: nat,
    n: nat,
)
    requires
        forall|k: int| 0 <= k < counters.len() - 1 ==> #[trigger] counters[k] <= counters[k + 1],
        0 <= i < j,
        j + 1 < counters.len(),
        counters[i] <= m < counters[i + 1],
        counters[j] <= n < counters[j + 1],
    ensures
        m < n,
{
    lemma_counter_never_falls(counters, i + 1, j);
}

proof fn lemma_counter_never_falls(counters: Seq<nat>, k: int, l: int)
    requires
        forall|x: int| 0 <= x < counters.len() - 1 ==> #[trigger] counters[x] <= counters[x + 1],
        0 <= k <= l < counters.len(),
    ensures
        counters[k] <= counters[l],
    decreases l - k,
{
    if k < l {
        lemma_counter_never_falls(counters, k, l - 1);
        assert(counters[l - 1] <= counters[l]);
    }
}

pub open spec fn decoded_view(decoded: Result<RawToolProposal, String>) -> Result<RawToolProposalView, Seq<char>> {
    match decoded {
        Ok(p) => Ok(p@),
        Err(m) => Err(m@),
    }
}

fn audit(sequence: u64, outcome: AuditOutcome, context: &str) -> (r: PipelineAction)
    ensures
        r@ == audit_action(sequence as nat, outcome@, context@),
{
    PipelineAction::EmitAudit { sequence, outcome, failure_context: context.to_owned() }
}

impl PipelineStep {
    #[verifier::type_invariant]
    closed spec fn well_formed(self) -> bool {
        self@.sequence + pending_increments(self@.stage) <= u64::MAX
    }

    /// Starts a step (see [`pipeline_begin`]). `decoded` is what the JSON
    /// decoder made of the payload (its error message on failure); it is
    /// ignored when the payload is over the size limit.
    pub fn begin(
        raw_payload: &[u8],
        decoded: Result<RawToolProposal, String>,
        manifest: &ScopeManifest,
        sequence: u64,
        remaining_budget: u32,
        timestamp: u64,
    ) -> (r: (PipelineStep, PipelineAction))
        requires
            sequence <= u64::MAX - 2,
        ensures
            (r.0@, r.1@) == pipeline_begin(
                raw_payload@,
                decoded_view(decoded),
                manifest@,
                sequence as nat,
                remaining_budget as nat,
                timestamp,
            ),
    {
        let digest = sha256_digest(raw_payload);
        let proposal_hash = to_hex_lower(digest.as_slice());
        if remaining_budget == 0 {
            let err = policy_denial("Transaction step budget exhausted");
            let reason = err.message();
            let step = PipelineStep {
                proposal_hash,
                timestamp,
                sequence,
                remaining_budget,
                stage: PipelineStage::AwaitDenialAudit { error: err },
            };
            return (
                step,
                audit(
                    sequence,
                    AuditOutcome::PolicyDenied { reason },
                    "Terminal budget denial logging failed",
                ),
            );
        }
        let budget = remaining_budget - 1;
        match RawOutputParser::parse(raw_payload, decoded) {
            Err(e) => {
                let reason = e.message();
                let step = PipelineStep {
                    proposal_hash,
                    timestamp,
                    sequence,
                    remaining_budget: budget,
                    stage: PipelineStage::AwaitDenialAudit { error: e },
                };
                (
                    step,
                    audit(
                        sequence,
                        AuditOutcome::ParseDenied { reason },
                        "Terminal parse denial logging failed",
                    ),
                )
            },
            Ok(proposal) => {
                let proposed_capability = proposal.proposed_capability();
                match ValidatedToolInvocation::try_from_proposal(proposal, manifest) {
                    Err(e) => {
                        let reason = e.message();
                        let step = PipelineStep {
                            proposal_hash,
                            timestamp,
                            sequence,
                            remaining_budget: budget,
                            stage: PipelineStage::AwaitDenialAudit { error: e },
                        };
                        (
                            step,
                            audit(
                                sequence,
                                AuditOutcome::ValidationDenied { proposed_capability, reason },
                                "Terminal validation denial logging failed",
                            ),
                        )
                    },
                    Ok(invocation) => {
                        let step = PipelineStep {
                            proposal_hash,
                            timestamp,
                            sequence,
                            remaining_budget: budget,
                            stage: PipelineStage::AwaitGate { invocation },
                        };
                        (step, PipelineAction::EvaluateGate)
                    },
                }
            },
        }
    }

    /// The name audit records give this step's proposal.
    pub fn proposal_hash(&self) -> (r: &str)
        ensures
            r@ == self@.proposal_hash,
    {
        self.proposal_hash.as_str()
    }

    pub fn timestamp(&self) -> (r: u64)
        ensures
            r == self@.timestamp,
    {
        self.timestamp
    }

    /// The sequence number the next audit record gets.
    pub fn sequence(&self) -> (r: u64)
        ensures
            r == self@.sequence,
    {
        self.sequence
    }

    pub fn remaining_budget(&self) -> (r: u32)
        ensures
            r == self@.remaining_budget,
    {
        self.remaining_budget
    }

    /// The invocation waiting for the policy gate, if the step is there.
    pub fn pending_invocation(&self) -> (r: Option<&ValidatedToolInvocation>)
        ensures
            self@.stage matches PipelineStageView::AwaitGate { invocation } ==> (r matches Some(
                inv,
            ) && inv@ == invocation),
            !(self@.stage is AwaitGate) ==> r is None,
    {
        match &self.stage {
            PipelineStage::AwaitGate { invocation } => Some(invocation),
            _ => None,
        }
    }

    /// Whether the step is waiting for `event`'s kind of report.
    pub fn accepts(&self, event: &PipelineEvent) -> (r: bool)
        ensures
            r == pipeline_accepts(self@, event@),
    {
        match (&self.stage, event) {
            (PipelineStage::AwaitDenialAudit { .. }, PipelineEvent::AuditEmitted(_)) => true,
            (PipelineStage::AwaitGate { .. }, PipelineEvent::GateDecided(_)) => true,
            (PipelineStage::AwaitStartAudit { .. }, PipelineEvent::AuditEmitted(_)) => true,
            (PipelineStage::AwaitRelease { .. }, PipelineEvent::ReservationReleased) => true,
            (PipelineStage::AwaitConsumption { .. }, PipelineEvent::ApprovalConsumed(_)) => true,
            (PipelineStage::AwaitExecution { .. }, PipelineEvent::Executed(_)) => true,
            (PipelineStage::AwaitSuccessAudit { .. }, PipelineEvent::AuditEmitted(_)) => true,
            (PipelineStage::AwaitFailureAudit { .. }, PipelineEvent::AuditEmitted(_)) => true,
            _ => false,
        }
    }

    /// Takes the report for the last action and says what to do next (see
    /// [`pipeline_step`]).
    fn step(self, event: PipelineEvent) -> (r: (PipelineStep, PipelineAction))
        requires
            pipeline_accepts(self@, event@),
        ensures
            (r.0@, r.1@) == pipeline_step(self@, event@),
    {
        proof {
            use_type_invariant(&self);
        }
        let ghost old_view = self@;
        let PipelineStep { proposal_hash, timestamp, sequence, remaining_budget, stage } = self;
        match stage {
            PipelineStage::AwaitDenialAudit { error } => match event {
                PipelineEvent::AuditEmitted(Ok(())) => {
                    let next = PipelineStep {
                        proposal_hash,
                        timestamp,
                        sequence: sequence + 1,
                        remaining_budget,
                        stage: PipelineStage::Finished,
                    };
                    (next, PipelineAction::Finish(Err(error)))
                },
                PipelineEvent::AuditEmitted(Err(ae)) => {
                    let next = PipelineStep {
                        proposal_hash,
                        timestamp,
                        sequence,
                        remaining_budget,
                        stage: PipelineStage::Finished,
                    };
                    (next, PipelineAction::Finish(Err(ae)))
                },
                _ => {
                    let next = PipelineStep {
                        proposal_hash,
                        timestamp,
                        sequence,
                        remaining_budget,
                        stage: PipelineStage::Finished,
                    };
                    (next, PipelineAction::Finish(Err(error)))
                },
            },
            PipelineStage::AwaitGate { invocation } => match event {
                PipelineEvent::GateDecided(Err(ge)) => {
                    let reason = ge.message();
                    let next = PipelineStep {
                        proposal_hash,
                        timestamp,
                        sequence,
                        remaining_budget,
                        stage: PipelineStage::AwaitDenialAudit { error: ge },
                    };
                    (
                        next,
                        audit(
                            sequence,
                            AuditOutcome::PolicyDenied { reason },
                            "Terminal policy denial logging failed",
                        ),
                    )
                },
                PipelineEvent::GateDecided(Ok(reservation)) => {
                    let capability = invocation.capability();
                    let next = PipelineStep {
                        proposal_hash,
                        timestamp,
                        sequence,
                        remaining_budget,
                        stage: PipelineStage::AwaitStartAudit { invocation, reservation },
                    };
                    (
                        next,
                        audit(
                            sequence,
                            AuditOutcome::ExecutionStarted { capability },
                            "Pre-execution audit logging failed",
                        ),
                    )
                },
                _ => {
                    let next = PipelineStep {
                        proposal_hash,
                        timestamp,
                        sequence,
                        remaining_budget,
                        stage: PipelineStage::Finished,
                    };
                    (next, PipelineAction::Finish(Err(BoundaryError::PolicyDenial(String::new()))))
                },
            },
            PipelineStage::AwaitStartAudit { invocation, reservation } => match event {
                PipelineEvent::AuditEmitted(Err(ae)) => match reservation {
                    ApprovalReservation::Reserved { approval_id } => {
                        let next = PipelineStep {
                            proposal_hash,
                            timestamp,
                            sequence,
                            remaining_budget,
                            stage: PipelineStage::AwaitRelease { audit_error: ae },
                        };
                        (next, PipelineAction::ReleaseReservation(approval_id))
                    },
                    ApprovalReservation::NotRequired => {
                        let next = PipelineStep {
                            proposal_hash,
                            timestamp,
                            sequence,
                            remaining_budget,
                            stage: PipelineStage::Finished,
                        };
                        (next, PipelineAction::Finish(Err(ae)))
                    },
                },
                _ => match reservation {
                    ApprovalReservation::Reserved { approval_id } => {
                        let next = PipelineStep {
                            proposal_hash,
                            timestamp,
                            sequence: sequence + 1,
                            remaining_budget,
                            stage: PipelineStage::AwaitConsumption { invocation },
                        };
                        (next, PipelineAction::ConsumeApproval(approval_id))
                    },
                    ApprovalReservation::NotRequired => {
                        let capability = invocation.capability();
                        let next = PipelineStep {
                            proposal_hash,
                            timestamp,
                            sequence: sequence + 1,
                            remaining_budget,
                            stage: PipelineStage::AwaitExecution { capability },
                        };
                        (next, PipelineAction::Execute(invocation))
                    },
                },
            },
            PipelineStage::AwaitRelease { audit_error } => {
                let next = PipelineStep {
                    proposal_hash,
                    timestamp,
                    sequence,
                    remaining_budget,
                    stage: PipelineStage::Finished,
                };
                (next, PipelineAction::Finish(Err(audit_error)))
            },
            PipelineStage::AwaitConsumption { invocation } => match event {
                PipelineEvent::ApprovalConsumed(Err(ce)) => {
                    let reason = ce.message();
                    let next = PipelineStep {
                        proposal_hash,
                        timestamp,
                        sequence,
                        remaining_budget,
                        stage: PipelineStage::AwaitDenialAudit { error: ce },
                    };
                    (
                        next,
                        audit(
                            sequence,
                            AuditOutcome::ApprovalConsumptionFailed { reason },
                            "Failed to log consumption failure",
                        ),
                    )
                },
                _ => {
                    let capability = invocation.capability();
                    let next = PipelineStep {
                        proposal_hash,
                        timestamp,
                        sequence,
                        remaining_budget,
                        stage: PipelineStage::AwaitExecution { capability },
                    };
                    (next, PipelineAction::Execute(invocation))
                },
            },
            PipelineStage::AwaitExecution { capability } => match event {
                PipelineEvent::Executed(Ok(output)) => {
                    let next = PipelineStep {
                        proposal_hash,
                        timestamp,
                        sequence,
                        remaining_budget,
                        stage: PipelineStage::AwaitSuccessAudit { output },
                    };
                    (
                        next,
                        audit(
                            sequence,
                            AuditOutcome::ExecutionSucceeded { capability },
                            "Execution succeeded, but completion audit failed",
                        ),
                    )
                },
                PipelineEvent::Executed(Err(xe)) => {
                    let error_text = xe.message();
                    let next = PipelineStep {
                        proposal_hash,
                        timestamp,
                        sequence,
                        remaining_budget,
                        stage: PipelineStage::AwaitFailureAudit { error: xe },
                    };
                    (
                        next,
                        audit(
                            sequence,
                            AuditOutcome::ExecutionFailed { error: error_text },
                            "Execution failure logging failed",
                        ),
                    )
                },
                _ => {
                    let next = PipelineStep {
                        proposal_hash,
                        timestamp,
                        sequence,
                        remaining_budget,
                        stage: PipelineStage::Finished,
                    };
                    (next, PipelineAction::Finish(Err(BoundaryError::PolicyDenial(String::new()))))
                },
            },
            PipelineStage::AwaitSuccessAudit { output } => match event {
                PipelineEvent::AuditEmitted(Err(ae)) => {
                    let next = PipelineStep {
                        proposal_hash,
                        timestamp,
                        sequence,
                        remaining_budget,
                        stage: PipelineStage::Finished,
                    };
                    (next, PipelineAction::Finish(Err(ae)))
                },
                _ => {
                    let next = PipelineStep {
                        proposal_hash,
                        timestamp,
                        sequence: sequence + 1,
                        remaining_budget,
                        stage: PipelineStage::Finished,
                    };
                    (next, PipelineAction::Finish(Ok(output)))
                },
            },
            PipelineStage::AwaitFailureAudit { error } => match event {
                PipelineEvent::AuditEmitted(Err(ae)) => {
                    let mut text = String::new();
                    push_str(&mut text, "Execution failed [");
                    let m1 = error.message();
                    push_str(&mut text, m1.as_str());
                    push_str(&mut text, "], AND logging failed [");
                    let m2 = ae.message();
                    push_str(&mut text, m2.as_str());
                    push_str(&mut text, "]");
                    let next = PipelineStep {
                        proposal_hash,
                        timestamp,
                        sequence: sequence + 1,
                        remaining_budget,
                        stage: PipelineStage::Finished,
                    };
                    (next, PipelineAction::Finish(Err(BoundaryError::AuditSystemFailure(text))))
                },
                _ => {
                    let next = PipelineStep {
                        proposal_hash,
                        timestamp,
                        sequence: sequence + 1,
                        remaining_budget,
                        stage: PipelineStage::Finished,
                    };
                    (next, PipelineAction::Finish(Err(error)))
                },
            },
            PipelineStage::Finished => {
                let next = PipelineStep {
                    proposal_hash,
                    timestamp,
                    sequence,
                    remaining_budget,
                    stage: PipelineStage::Finished,
                };
                (next, PipelineAction::Finish(Err(BoundaryError::PolicyDenial(String::new()))))
            },
        }
    }
}


// ---------------------------------------------------------------- runs of the machine

/// Whether `e` is a reply the step's services may give in state `s`, as
/// their contracts admit: a policy decision is one [`gate_admits`] allows,
/// and a failed write of a record is an audit-system failure.
pub open spec fn answer_admitted(sv: &StepServices, s: PipelineView, e: PipelineEventView) -> bool {
    match e {
        PipelineEventView::GateDecided(g) => s.stage matches PipelineStageView::AwaitGate {
            invocation,
        } ==> gate_admits(sv, invocation, s.timestamp, g),
        PipelineEventView::AuditEmitted(Err(x)) => x is AuditSystemFailure,
        _ => true,
    }
}

/// Whether every answer of a run from `s` is one the services may give.
pub open spec fn run_admitted(sv: &StepServices, s: PipelineView, events: Seq<PipelineEventView>) -> bool
    decreases events.len(),
{
    if events.len() == 0 || !pipeline_accepts(s, events[0]) {
        true
    } else {
        answer_admitted(sv, s, events[0]) && run_admitted(
            sv,
            pipeline_step(s, events[0]).0,
            events.drop_first(),
        )
    }
}

proof fn lemma_run_admitted_one(sv: &StepServices, s: PipelineView, e: PipelineEventView)
    requires
        pipeline_accepts(s, e),
        answer_admitted(sv, s, e),
    ensures
        run_admitted(sv, s, seq![e]),
{
    assert(seq![e].drop_first().len() == 0);
    assert(run_admitted(sv, pipeline_step(s, e).0, seq![e].drop_first()));
    assert(seq![e][0] == e);
}

proof fn lemma_run_admitted_cons(
    sv: &StepServices,
    s: PipelineView,
    e: PipelineEventView,
    rest: Seq<PipelineEventView>,
)
    requires
        pipeline_accepts(s, e),
        answer_admitted(sv, s, e),
        run_admitted(sv, pipeline_step(s, e).0, rest),
    ensures
        run_admitted(sv, s, seq![e] + rest),
{
    assert((seq![e] + rest)[0] == e);
    assert((seq![e] + rest).drop_first() =~= rest);
}

/// Where the machine ends after taking `events` in turn from state `s`: the
/// last state and action, if every event was one the machine was waiting for.
pub open spec fn run_end(s: PipelineView, events: Seq<PipelineEventView>) -> Option<
    (PipelineView, PipelineActionView),
>
    decreases events.len(),
{
    if events.len() == 0 || !pipeline_accepts(s, events[0]) {
        None
    } else if events.len() == 1 {
        Some(pipeline_step(s, events[0]))
    } else {
        run_end(pipeline_step(s, events[0]).0, events.drop_first())
    }
}

proof fn lemma_run_end_one(s: PipelineView, e: PipelineEventView)
    requires
        pipeline_accepts(s, e),
    ensures
        run_end(s, seq![e]) == Some(pipeline_step(s, e)),
{
}

proof fn lemma_run_end_cons(s: PipelineView, e: PipelineEventView, rest: Seq<PipelineEventView>)
    requires
        pipeline_accepts(s, e),
        rest.len() > 0,
    ensures
        run_end(s, seq![e] + rest) == run_end(pipeline_step(s, e).0, rest),
{
    assert((seq![e] + rest)[0] == e);
    assert((seq![e] + rest).drop_first() =~= rest);
}

/// The actions the machine asks for while taking `events` in turn from `s`.
pub open spec fn run_actions(s: PipelineView, events: Seq<PipelineEventView>) -> Seq<
    PipelineActionView,
>
    decreases events.len(),
{
    if events.len() == 0 || !pipeline_accepts(s, events[0]) {
        seq![]
    } else {
        seq![pipeline_step(s, events[0]).1] + run_actions(
            pipeline_step(s, events[0]).0,
            events.drop_first(),
        )
    }
}

/// The stages from which a step can still ask for execution.
pub open spec fn before_execution(stage: PipelineStageView) -> bool {
    stage is AwaitGate || stage is AwaitStartAudit || stage is AwaitConsumption
}

proof fn lemma_no_execution_after(s: PipelineView, events: Seq<PipelineEventView>)
    requires
        !before_execution(s.stage),
    ensures
        forall|i: int|
            0 <= i < run_actions(s, events).len() ==> !(#[trigger] run_actions(s, events)[i] is Execute),
    decreases events.len(),
{
    if events.len() > 0 && pipeline_accepts(s, events[0]) {
        let t = pipeline_step(s, events[0]).0;
        let a = pipeline_step(s, events[0]).1;
        assert(!before_execution(t.stage));
        assert(!(a is Execute));
        let rest = events.drop_first();
        lemma_no_execution_after(t, rest);
        let acts = run_actions(s, events);
        assert(acts == seq![a] + run_actions(t, rest));
        assert forall|i: int| 0 <= i < acts.len() implies !(#[trigger] acts[i] is Execute) by {
            if i > 0 {
                assert(acts[i] == run_actions(t, rest)[i - 1]);
            }
        }
    }
}

/// Law: a step asks for execution at most once, whatever the services answer.
pub proof fn lemma_at_most_one_execution(s: PipelineView, events: Seq<PipelineEventView>)
    ensures
        forall|i: int, j: int|
            0 <= i < j < run_actions(s, events).len() ==> !(#[trigger] run_actions(s, events)[i] is Execute
                && #[trigger] run_actions(s, events)[j] is Execute),
    decreases events.len(),
{
    if events.len() > 0 && pipeline_accepts(s, events[0]) {
        let t = pipeline_step(s, events[0]).0;
        let a = pipeline_step(s, events[0]).1;
        let rest = events.drop_first();
        let acts = run_actions(s, events);
        assert(acts == seq![a] + run_actions(t, rest));
        if a is Execute {
            assert(t.stage is AwaitExecution);
            lemma_no_execution_after(t, rest);
        } else {
            lemma_at_most_one_execution(t, rest);
        }
        assert forall|i: int, j: int|
            0 <= i < j < acts.len() implies !(#[trigger] acts[i] is Execute && #[trigger] acts[j] is Execute) by {
            assert(acts[j] == run_actions(t, rest)[j - 1]);
            if i > 0 {
                assert(acts[i] == run_actions(t, rest)[i - 1]);
            }
        }
    }
}

/// How many records a run wrote (each successful write), counting also a
/// failed attempt to log an execution failure, which advances the counter too.
pub open spec fn counted_records(s: PipelineView, events: Seq<PipelineEventView>) -> nat
    decreases events.len(),
{
    if events.len() == 0 || !pipeline_accepts(s, events[0]) {
        0
    } else {
        (if events[0] == PipelineEventView::AuditEmitted(Ok(())) || s.stage is AwaitFailureAudit {
            1nat
        } else {
            0nat
        }) + counted_records(pipeline_step(s, events[0]).0, events.drop_first())
    }
}

/// Law: over a whole run, the sequence counter advances by exactly the
/// records counted; each record asked for carries the counter's value at that
/// moment (see [`lemma_records_are_numbered_in_order`]), so the records a run
/// writes are numbered consecutively from the counter on entry.
pub proof fn lemma_run_counts_records(s: PipelineView, events: Seq<PipelineEventView>)
    ensures
        run_end(s, events) matches Some((t, _)) ==> t.sequence == s.sequence + counted_records(
            s,
            events,
        ),
    decreases events.len(),
{
    if events.len() > 0 && pipeline_accepts(s, events[0]) {
        lemma_sequence_counts_records(s, events[0]);
        let t = pipeline_step(s, events[0]).0;
        if events.len() > 1 {
            lemma_run_counts_records(t, events.drop_first());
        }
    }
}

// ---------------------------------------------------------------- running a step

/// Whether the error `x` that ended a step is on its audit trail: a record of
/// the step under some sequence number from `from` on, below the step's
/// counter, gives the error's text.
pub open spec fn error_logged(sv: &StepServices, s: PipelineView, from: nat, x: BoundaryErrorView) -> bool {
    exists|n: u64, o: AuditOutcomeView|
        from <= n && n < s.sequence && outcome_reason(o) == Some(error_message(x)) && #[trigger] logged(
            sv,
            n,
            s.timestamp,
            s.proposal_hash,
            o,
        )
}

impl PipelineStep {
    /// Writes a record of this step through the services' sink.
    fn record(&self, sequence: u64, outcome: AuditOutcome, context: &str, sv: &StepServices) -> (r:
        Result<(), BoundaryError>)
        ensures
            r is Ok ==> logged(sv, sequence, self@.timestamp, self@.proposal_hash, outcome@),
            r matches Err(e) ==> e@ is AuditSystemFailure,
    {
        emit_audit(
            sv,
            AuditEmission {
                sequence,
                timestamp: self.timestamp,
                proposal_hash: self.proposal_hash.as_str(),
                outcome,
                failure_context: context,
            },
        )
    }

    /// Runs the policy gate on the pending invocation.
    fn gate(&self, sv: &StepServices) -> (r: Result<ApprovalReservation, BoundaryError>)
        requires
            self@.stage is AwaitGate,
        ensures
            r matches Ok(res) ==> gate_passed(sv, self@.stage->AwaitGate_invocation, self@.timestamp, res@),
            gate_admits(
                sv,
                self@.stage->AwaitGate_invocation,
                self@.timestamp,
                crate::boundary::reservation_result_view(r),
            ),
    {
        match self.pending_invocation() {
            Some(invocation) => PolicyGate::verify_and_reserve(invocation, self.timestamp, sv),
            None => unreached(),
        }
    }
}

impl PipelineStep {
    /// Runs a step up to execution: the budget check, parsing, validation,
    /// the policy gate, the start record and the reserved approval, with each
    /// refusal logged. Returns the step and what remains: the invocation to
    /// execute, or the step's end.
    ///
    /// An invocation is handed out only if: budget was left; the payload was
    /// read; the proposal became that very invocation under the manifest; a
    /// required approval was accepted, its ticket active, and the approval
    /// reserved and then consumed; and its start is on the audit trail.
    pub fn start(
        raw_payload: &[u8],
        decoded: Result<RawToolProposal, String>,
        sequence: u64,
        remaining_budget: u32,
        timestamp: u64,
        sv: &StepServices,
    ) -> (r: (PipelineStep, PipelineAction))
        requires
            sequence <= u64::MAX - 2,
        ensures
            r.1 is Execute || r.1 matches PipelineAction::Finish(Err(_)),
            r.0@.timestamp == timestamp,
            r.0@.proposal_hash == proposal_digest(raw_payload@),
            r.0@.remaining_budget == budget_after(remaining_budget as nat, 1),
            sequence <= r.0@.sequence <= sequence + 2,
            r.1 matches PipelineAction::Execute(inv) ==> {
                &&& remaining_budget > 0
                &&& parse_outcome(raw_payload@, decoded_view(decoded)) is Ok
                &&& validated_invocation(
                    parse_outcome(raw_payload@, decoded_view(decoded))->Ok_0,
                    sv.manifest@,
                ) == Ok::<InvocationView, BoundaryErrorView>(inv@)
                &&& exists|res: ReservationView|
                    #[trigger] gate_passed(sv, inv@, timestamp, res) && (res matches ReservationView::Reserved(
                        id,
                    ) ==> sv.state_store.consumption_answer(
                        id,
                        Ok::<(), BoundaryErrorView>(()),
                    ))
                &&& logged(
                    sv,
                    sequence,
                    timestamp,
                    proposal_digest(raw_payload@),
                    AuditOutcomeView::ExecutionStarted { capability: kind_capability(inv@.kind) },
                )
                &&& r.0@.sequence == sequence + 1
                &&& r.0@.stage == PipelineStageView::AwaitExecution {
                    capability: kind_capability(inv@.kind),
                }
            },
            r.1 matches PipelineAction::Finish(Err(x)) ==> (error_logged(sv, r.0@, sequence as nat, x@)
                || x@ is AuditSystemFailure),
            exists|events: Seq<PipelineEventView>|
                run_admitted(
                    sv,
                    pipeline_begin(
                        raw_payload@,
                        decoded_view(decoded),
                        sv.manifest@,
                        sequence as nat,
                        remaining_budget as nat,
                        timestamp,
                    ).0,
                    events,
                ) && run_end(
                    pipeline_begin(
                        raw_payload@,
                        decoded_view(decoded),
                        sv.manifest@,
                        sequence as nat,
                        remaining_budget as nat,
                        timestamp,
                    ).0,
                    events,
                ) == Some((r.0@, r.1@)),
            pipeline_begin(
                raw_payload@,
                decoded_view(decoded),
                sv.manifest@,
                sequence as nat,
                remaining_budget as nat,
                timestamp,
            ).0.stage matches PipelineStageView::AwaitGate { invocation: inv } ==> {
                &&& !approval_required(sv.manifest.environment, kind_capability(inv.kind)) ==> {
                    ||| r.1 matches PipelineAction::Execute(x) && x@ == inv
                    ||| r.1 matches PipelineAction::Finish(Err(e)) && e@ is AuditSystemFailure
                }
                &&& approval_required(sv.manifest.environment, kind_capability(inv.kind))
                    && sv.approval is None ==> (r.1 matches PipelineAction::Finish(Err(e)) && (e@
                    == BoundaryErrorView::PolicyDenial(
                    "Production mutations require explicit authorization signatures"@,
                ) || e@ is AuditSystemFailure))
            },
            stage_pending_error(
                pipeline_begin(
                    raw_payload@,
                    decoded_view(decoded),
                    sv.manifest@,
                    sequence as nat,
                    remaining_budget as nat,
                    timestamp,
                ).0.stage,
            ) matches Some(e) ==> (r.1 matches PipelineAction::Finish(Err(x)) && (x@ == e
                || x@ is AuditSystemFailure)),
    {
        assert(budget_after(remaining_budget as nat, 1) == if remaining_budget == 0 {
            0nat
        } else {
            (remaining_budget - 1) as nat
        }) by {
            reveal_with_fuel(budget_after, 2);
        }
        let (s, a) = PipelineStep::begin(
            raw_payload,
            decoded,
            sv.manifest,
            sequence,
            remaining_budget,
            timestamp,
        );
        let ghost s0 = s@;
        match a {
            PipelineAction::EmitAudit { sequence: n, outcome, failure_context } => {
                let ghost o = outcome@;
                let w = s.record(n, outcome, failure_context.as_str(), sv);
                let ev1 = PipelineEvent::AuditEmitted(w);
                let ghost e1 = ev1@;
                let (s2, a2) = s.step(ev1);
                proof {
                    if w is Ok {
                        assert(logged(sv, n, s2@.timestamp, s2@.proposal_hash, o));
                    }
                    lemma_run_end_one(s0, e1);
                    lemma_run_admitted_one(sv, s0, e1);
                }
                (s2, a2)
            },
            PipelineAction::EvaluateGate => {
                let ghost inv = s@.stage->AwaitGate_invocation;
                let g = s.gate(sv);
                let ghost gv = match &g {
                    Ok(res) => Some(res@),
                    Err(_) => None::<ReservationView>,
                };
                let ev1 = PipelineEvent::GateDecided(g);
                let ghost e1 = ev1@;
                let (s1, a1) = s.step(ev1);
                let ghost s1v = s1@;
                proof {
                    lemma_run_end_one(s0, e1);
                    lemma_run_admitted_one(sv, s0, e1);
                }
                match a1 {
                    PipelineAction::EmitAudit { sequence: n, outcome, failure_context } => {
                        let ghost o = outcome@;
                        let w = s1.record(n, outcome, failure_context.as_str(), sv);
                        let ev2 = PipelineEvent::AuditEmitted(w);
                        let ghost e2 = ev2@;
                        let (s2, a2) = s1.step(ev2);
                        let ghost s2v = s2@;
                        proof {
                            if w is Ok {
                                assert(logged(sv, n, s2@.timestamp, s2@.proposal_hash, o));
                            }
                            if gv is Some {
                                assert(gate_passed(sv, inv, timestamp, gv->Some_0));
                            }
                            lemma_run_end_one(s1v, e2);
                            lemma_run_end_cons(s0, e1, seq![e2]);
                            lemma_run_admitted_one(sv, s1v, e2);
                            lemma_run_admitted_cons(sv, s0, e1, seq![e2]);
                        }
                        match a2 {
                            PipelineAction::ReleaseReservation(id) => {
                                let _ = sv.state_store.release_reserved_approval(&id);
                                let ev3 = PipelineEvent::ReservationReleased;
                                let ghost e3 = ev3@;
                                let (s3, a3) = s2.step(ev3);
                                proof {
                                    lemma_run_end_one(s2v, e3);
                                    lemma_run_end_cons(s1v, e2, seq![e3]);
                                    lemma_run_end_cons(s0, e1, seq![e2] + seq![e3]);
                                    lemma_run_admitted_one(sv, s2v, e3);
                                    lemma_run_admitted_cons(sv, s1v, e2, seq![e3]);
                                    lemma_run_admitted_cons(sv, s0, e1, seq![e2] + seq![e3]);
                                }
                                (s3, a3)
                            },
                            PipelineAction::ConsumeApproval(id) => {
                                let c = sv.state_store.consume_reserved_approval(&id);
                                let ev3 = PipelineEvent::ApprovalConsumed(c);
                                let ghost e3 = ev3@;
                                let (s3, a3) = s2.step(ev3);
                                let ghost s3v = s3@;
                                proof {
                                    lemma_run_end_one(s2v, e3);
                                    lemma_run_end_cons(s1v, e2, seq![e3]);
                                    lemma_run_end_cons(s0, e1, seq![e2] + seq![e3]);
                                    lemma_run_admitted_one(sv, s2v, e3);
                                    lemma_run_admitted_cons(sv, s1v, e2, seq![e3]);
                                    lemma_run_admitted_cons(sv, s0, e1, seq![e2] + seq![e3]);
                                }
                                match a3 {
                                    PipelineAction::EmitAudit {
                                        sequence: n3,
                                        outcome: outcome3,
                                        failure_context: context3,
                                    } => {
                                        let ghost o3 = outcome3@;
                                        let w3 = s3.record(n3, outcome3, context3.as_str(), sv);
                                        let ev4 = PipelineEvent::AuditEmitted(w3);
                                        let ghost e4 = ev4@;
                                        let (s4, a4) = s3.step(ev4);
                                        proof {
                                            if w3 is Ok {
                                                assert(logged(
                                                    sv,
                                                    n3,
                                                    s4@.timestamp,
                                                    s4@.proposal_hash,
                                                    o3,
                                                ));
                                            }
                                            lemma_run_end_one(s3v, e4);
                                            lemma_run_end_cons(s2v, e3, seq![e4]);
                                            lemma_run_end_cons(s1v, e2, seq![e3] + seq![e4]);
                                            lemma_run_end_cons(s0, e1, seq![e2] + (seq![e3] + seq![e4]));
                                            lemma_run_admitted_one(sv, s3v, e4);
                                            lemma_run_admitted_cons(sv, s2v, e3, seq![e4]);
                                            lemma_run_admitted_cons(sv, s1v, e2, seq![e3] + seq![e4]);
                                            lemma_run_admitted_cons(
                                                sv,
                                                s0,
                                                e1,
                                                seq![e2] + (seq![e3] + seq![e4]),
                                            );
                                        }
                                        (s4, a4)
                                    },
                                    _ => (s3, a3),
                                }
                            },
                            _ => (s2, a2),
                        }
                    },
                    _ => (s1, a1),
                }
            },
            _ => (s, a),
        }
    }

    /// Whether the step waits for the executor's answer.
    pub fn awaits_execution(&self) -> (r: bool)
        ensures
            r == self@.stage is AwaitExecution,
    {
        match self.stage {
            PipelineStage::AwaitExecution { .. } => true,
            _ => false,
        }
    }

    /// Takes what the executor returned and ends the step: the result is
    /// logged, and the step succeeds only once its success record is written.
    pub fn resume(self, executed: Result<String, BoundaryError>, sv: &StepServices) -> (r: (
        PipelineStep,
        Result<String, BoundaryError>,
    ))
        requires
            self@.stage is AwaitExecution,
        ensures
            r.0@.timestamp == self@.timestamp,
            r.0@.proposal_hash == self@.proposal_hash,
            r.0@.remaining_budget == self@.remaining_budget,
            r.0@.sequence == self@.sequence + 1 || (r.0@.sequence == self@.sequence && executed is Ok
                && r.1 is Err),
            r.1 matches Ok(out) ==> {
                &&& executed matches Ok(o) && out@ == o@
                &&& logged(
                    sv,
                    self@.sequence as u64,
                    self@.timestamp,
                    self@.proposal_hash,
                    AuditOutcomeView::ExecutionSucceeded {
                        capability: self@.stage->AwaitExecution_capability,
                    },
                )
            },
            r.1 matches Err(x) ==> match executed {
                Ok(_) => x@ is AuditSystemFailure,
                Err(xe) => {
                    ||| (x@ == xe@ && logged(
                        sv,
                        self@.sequence as u64,
                        self@.timestamp,
                        self@.proposal_hash,
                        AuditOutcomeView::ExecutionFailed { error: error_message(xe@) },
                    ))
                    ||| exists|ae: BoundaryErrorView| x@ == double_failure(xe@, ae)
                },
            },
            exists|events: Seq<PipelineEventView>|
                events.len() > 0 && events[0] == PipelineEventView::Executed(
                    match executed {
                        Ok(o) => Ok::<Seq<char>, BoundaryErrorView>(o@),
                        Err(e) => Err(e@),
                    },
                ) && run_admitted(sv, self@, events) && run_end(self@, events) == Some(
                    (
                        r.0@,
                        PipelineActionView::Finish(
                            match r.1 {
                                Ok(o) => Ok::<Seq<char>, BoundaryErrorView>(o@),
                                Err(e) => Err(e@),
                            },
                        ),
                    ),
                ),
    {
        let ghost s0 = self@;
        let ev1 = PipelineEvent::Executed(executed);
        let ghost e1 = ev1@;
        let (s, a) = self.step(ev1);
        let ghost s1 = s@;
        match a {
            PipelineAction::EmitAudit { sequence: n, outcome, failure_context } => {
                let ghost o = outcome@;
                let w = s.record(n, outcome, failure_context.as_str(), sv);
                let ev2 = PipelineEvent::AuditEmitted(w);
                let ghost e2 = ev2@;
                let (s2, a2) = s.step(ev2);
                proof {
                    if w is Ok {
                        assert(logged(sv, n, s2@.timestamp, s2@.proposal_hash, o));
                    }
                    lemma_run_end_one(s1, e2);
                    lemma_run_end_cons(s0, e1, seq![e2]);
                    lemma_run_admitted_one(sv, s1, e2);
                    lemma_run_admitted_cons(sv, s0, e1, seq![e2]);
                    assert((seq![e1] + seq![e2])[0] == e1);
                }
                match a2 {
                    PipelineAction::Finish(result) => (s2, result),
                    _ => unreached(),
                }
            },
            _ => unreached(),
        }
    }
}

} // verus!
