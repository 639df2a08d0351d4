//! The audit trail: what the boundary decided, for which proposal, and when.

use vstd::prelude::*;
use crate::boundary::errors::{answer_view, BoundaryError, BoundaryErrorView};
use crate::boundary::identifiers::{ManifestId, SessionId};
use crate::boundary::manifest::ToolCapability;
use crate::boundary::text::is_lower_hex_char;

verus! {

/// What happened to one proposal at one point of its way through the boundary.
#[derive(Debug, Clone, PartialEq, Eq)]
pub enum AuditOutcome {
    ParseDenied { reason: String },
    ValidationDenied { proposed_capability: ToolCapability, reason: String },
    PolicyDenied { reason: String },
    ApprovalConsumptionFailed { reason: String },
    ExecutionStarted { capability: ToolCapability },
    ExecutionSucceeded { capability: ToolCapability },
    ExecutionFailed { error: String },
}

pub enum AuditOutcomeView {
    ParseDenied { reason: Seq<char> },
    ValidationDenied { proposed_capability: ToolCapability, reason: Seq<char> },
    PolicyDenied { reason: Seq<char> },
    ApprovalConsumptionFailed { reason: Seq<char> },
    ExecutionStarted { capability: ToolCapability },
    ExecutionSucceeded { capability: ToolCapability },
    ExecutionFailed { error: Seq<char> },
}

impl View for AuditOutcome {
    type V = AuditOutcomeView;

    open spec fn view(&self) -> AuditOutcomeView {
        match self {
            AuditOutcome::ParseDenied { reason } => AuditOutcomeView::ParseDenied { reason: reason@ },
            AuditOutcome::ValidationDenied { proposed_capability, reason } =>
                AuditOutcomeView::ValidationDenied {
                proposed_capability: *proposed_capability,
                reason: reason@,
            },
            AuditOutcome::PolicyDenied { reason } => AuditOutcomeView::PolicyDenied {
                reason: reason@,
            },
            AuditOutcome::ApprovalConsumptionFailed { reason } =>
                AuditOutcomeView::ApprovalConsumptionFailed { reason: reason@ },
            AuditOutcome::ExecutionStarted { capability } => AuditOutcomeView::ExecutionStarted {
                capability: *capability,
            },
            AuditOutcome::ExecutionSucceeded { capability } =>
                AuditOutcomeView::ExecutionSucceeded { capability: *capability },
            AuditOutcome::ExecutionFailed { error } => AuditOutcomeView::ExecutionFailed {
                error: error@,
            },
        }
    }
}

impl AuditOutcome {
    /// A copy of this outcome.
    pub fn duplicate(&self) -> (r: AuditOutcome)
        ensures
            r@ == self@,
    {
        match self {
            AuditOutcome::ParseDenied { reason } => AuditOutcome::ParseDenied { reason: reason.clone() },
            AuditOutcome::ValidationDenied { proposed_capability, reason } =>
                AuditOutcome::ValidationDenied {
                proposed_capability: *proposed_capability,
                reason: reason.clone(),
            },
            AuditOutcome::PolicyDenied { reason } => AuditOutcome::PolicyDenied {
                reason: reason.clone(),
            },
            AuditOutcome::ApprovalConsumptionFailed { reason } =>
                AuditOutcome::ApprovalConsumptionFailed { reason: reason.clone() },
            AuditOutcome::ExecutionStarted { capability } => AuditOutcome::ExecutionStarted {
                capability: *capability,
            },
            AuditOutcome::ExecutionSucceeded { capability } => AuditOutcome::ExecutionSucceeded {
                capability: *capability,
            },
            AuditOutcome::ExecutionFailed { error } => AuditOutcome::ExecutionFailed {
                error: error.clone(),
            },
        }
    }
}

/// One entry of the audit trail.
#[derive(Debug, Clone, PartialEq, Eq)]
pub struct AuditRecord {
    pub event_id: String,
    pub sequence_number: u64,
    pub timestamp: u64,
    pub session_id: SessionId,
    pub manifest_id: ManifestId,
    pub raw_proposal_hash: String,
    pub outcome: AuditOutcome,
}

pub struct AuditRecordView {
    pub event_id: Seq<char>,
    pub sequence_number: u64,
    pub timestamp: u64,
    pub session_id: Seq<char>,
    pub manifest_id: Seq<char>,
    pub raw_proposal_hash: Seq<char>,
    pub outcome: AuditOutcomeView,
}

impl View for AuditRecord {
    type V = AuditRecordView;

    open spec fn view(&self) -> AuditRecordView {
        AuditRecordView {
            event_id: self.event_id@,
            sequence_number: self.sequence_number,
            timestamp: self.timestamp,
            session_id: self.session_id@,
            manifest_id: self.manifest_id@,
            raw_proposal_hash: self.raw_proposal_hash@,
            outcome: self.outcome@,
        }
    }
}

/// Where audit records go.
pub trait AuditSink {
    /// Whether `answer` is an answer this sink may give when asked to write
    /// `record`; `Ok` means the record is durably emitted. Sinks that do not
    /// define it claim nothing.
    closed spec fn emit_answer(&self, record: AuditRecordView, answer: Result<(), BoundaryErrorView>) -> bool {
        true
    }

    /// Returning `Ok(())` means the record has been durably emitted or flushed
    /// to persistent storage and should survive process termination.
    fn emit_record(&self, record: AuditRecord) -> (r: Result<(), BoundaryError>)
        ensures
            self.emit_answer(record@, answer_view(r)),
    ;
}

/// Whether `c` may stand at position `i` of a UUID's text: a hyphen between
/// the groups, a lowercase hexadecimal digit elsewhere.
pub open spec fn uuid_char_at(i: int, c: char) -> bool {
    if i == 8 || i == 13 || i == 18 || i == 23 {
        c == '-'
    } else {
        is_lower_hex_char(c)
    }
}

/// The text form of a UUID: 36 characters, lowercase hexadecimal digits in
/// groups of 8-4-4-4-12 joined by hyphens.
pub open spec fn hyphenated_uuid_text(s: Seq<char>) -> bool {
    &&& s.len() == 36
    &&& forall|i: int| 0 <= i < 36 ==> uuid_char_at(i, #[trigger] s[i])
}

/// The text of a random (version 4, RFC 4122 variant) UUID: hyphenated
/// lowercase form, version digit `4`, variant digit `8`, `9`, `a` or `b`.
pub open spec fn uuid_v4_text(s: Seq<char>) -> bool {
    &&& hyphenated_uuid_text(s)
    &&& s[14] == '4'
    &&& (s[19] == '8' || s[19] == '9' || s[19] == 'a' || s[19] == 'b')
}

/// `uuid::Uuid::new_v4`, written out with `to_string`. The value is random,
/// so only its form is claimed: uuid's `Display` writes the hyphenated
/// lowercase form, and `new_v4` sets the version and variant bits.
#[verifier::external_body]
pub(crate) fn random_uuid_text() -> (r: String)
    ensures
        uuid_v4_text(r@),
{
    uuid::Uuid::new_v4().to_string()
}

} // verus!
