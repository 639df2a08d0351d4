//! The one error type of the boundary, and the text each error reads as.

use vstd::prelude::*;
use crate::boundary::text::{decimal, push_decimal, push_str};

verus! {

/// Every way the boundary refuses or fails a request.
#[derive(Debug, Clone, PartialEq, Eq)]
pub enum BoundaryError {
    PayloadLimitExceeded(usize, usize),
    NullByteDetected,
    InvalidPathSpecification,
    SymlinkEscalation,
    MalformedProviderPayload(String),
    CapabilityProhibited(String),
    InvalidTestSuiteName,
    PolicyDenial(String),
    InvalidHumanApprovalProof,
    AuditSystemFailure(String),
    StorageAccessError(String),
    InvalidIdentifier(String),
    InvalidCryptographicFormat(String),
}

/// The mathematical value of a [`BoundaryError`]: texts become character sequences.
pub enum BoundaryErrorView {
    PayloadLimitExceeded(nat, nat),
    NullByteDetected,
    InvalidPathSpecification,
    SymlinkEscalation,
    MalformedProviderPayload(Seq<char>),
    CapabilityProhibited(Seq<char>),
    InvalidTestSuiteName,
    PolicyDenial(Seq<char>),
    InvalidHumanApprovalProof,
    AuditSystemFailure(Seq<char>),
    StorageAccessError(Seq<char>),
    InvalidIdentifier(Seq<char>),
    InvalidCryptographicFormat(Seq<char>),
}

impl View for BoundaryError {
    type V = BoundaryErrorView;

    open spec fn view(&self) -> BoundaryErrorView {
        match self {
            BoundaryError::PayloadLimitExceeded(a, b) => BoundaryErrorView::PayloadLimitExceeded(*a as nat, *b as nat),
            BoundaryError::NullByteDetected => BoundaryErrorView::NullByteDetected,
            BoundaryError::InvalidPathSpecification => BoundaryErrorView::InvalidPathSpecification,
            BoundaryError::SymlinkEscalation => BoundaryErrorView::SymlinkEscalation,
            BoundaryError::MalformedProviderPayload(s) => BoundaryErrorView::MalformedProviderPayload(s@),
            BoundaryError::CapabilityProhibited(s) => BoundaryErrorView::CapabilityProhibited(s@),
            BoundaryError::InvalidTestSuiteName => BoundaryErrorView::InvalidTestSuiteName,
            BoundaryError::PolicyDenial(s) => BoundaryErrorView::PolicyDenial(s@),
            BoundaryError::InvalidHumanApprovalProof => BoundaryErrorView::InvalidHumanApprovalProof,
            BoundaryError::AuditSystemFailure(s) => BoundaryErrorView::AuditSystemFailure(s@),
            BoundaryError::StorageAccessError(s) => BoundaryErrorView::StorageAccessError(s@),
            BoundaryError::InvalidIdentifier(s) => BoundaryErrorView::InvalidIdentifier(s@),
            BoundaryError::InvalidCryptographicFormat(s) => BoundaryErrorView::InvalidCryptographicFormat(s@),
        }
    }
}

/// A service's answer with its error taken by its view.
pub open spec fn answer_view(r: Result<(), BoundaryError>) -> Result<(), BoundaryErrorView> {
    match r {
        Ok(_) => Ok(()),
        Err(e) => Err(e@),
    }
}

/// The human-readable text of an error, as the boundary writes it into audit records.
pub open spec fn error_message(e: BoundaryErrorView) -> Seq<char> {
    match e {
        BoundaryErrorView::PayloadLimitExceeded(a, b) =>
            "Payload size threshold exceeded: "@ + decimal(a) + " bytes (max "@ + decimal(b) + ")"@,
        BoundaryErrorView::NullByteDetected => "Malicious null-byte sequence detected"@,
        BoundaryErrorView::InvalidPathSpecification =>
            "Path specification violation: path cannot be empty, absolute, or traverse out of bounds"@,
        BoundaryErrorView::SymlinkEscalation =>
            "Symlink escalation or breakout from workspace root detected during ancestry descent"@,
        BoundaryErrorView::MalformedProviderPayload(s) => "Malformed provider output payload: "@ + s,
        BoundaryErrorView::CapabilityProhibited(s) =>
            "Capability not authorized by active scope manifest: "@ + s,
        BoundaryErrorView::InvalidTestSuiteName =>
            "Invalid test suite target format: must be clean alphanumeric layout"@,
        BoundaryErrorView::PolicyDenial(s) => "Policy gate enforcement denial: "@ + s,
        BoundaryErrorView::InvalidHumanApprovalProof =>
            "Cryptographic digital signature verification failed for human approval proof"@,
        BoundaryErrorView::AuditSystemFailure(s) =>
            "Mandatory audit logging system failure: "@ + s + ". Failing closed."@,
        BoundaryErrorView::StorageAccessError(s) => "Underlying workspace storage access error: "@ + s,
        BoundaryErrorView::InvalidIdentifier(s) => "Malformed input identifier wrapper string: "@ + s,
        BoundaryErrorView::InvalidCryptographicFormat(s) =>
            "Malformed hex hash or signature structure: "@ + s,
    }
}

impl BoundaryError {
    /// The error's text (what `Display` prints for it).
    pub fn message(&self) -> (r: String)
        ensures
            r@ == error_message(self@),
    {
        let mut r = String::new();
        match self {
            BoundaryError::PayloadLimitExceeded(a, b) => {
                push_str(&mut r, "Payload size threshold exceeded: ");
                push_decimal(&mut r, *a as u64);
                push_str(&mut r, " bytes (max ");
                push_decimal(&mut r, *b as u64);
                push_str(&mut r, ")");
            },
            BoundaryError::NullByteDetected => {
                push_str(&mut r, "Malicious null-byte sequence detected");
            },
            BoundaryError::InvalidPathSpecification => {
                push_str(
                    &mut r,
                    "Path specification violation: path cannot be empty, absolute, or traverse out of bounds",
                );
            },
            BoundaryError::SymlinkEscalation => {
                push_str(
                    &mut r,
                    "Symlink escalation or breakout from workspace root detected during ancestry descent",
                );
            },
            BoundaryError::MalformedProviderPayload(s) => {
                push_str(&mut r, "Malformed provider output payload: ");
                push_str(&mut r, s.as_str());
            },
            BoundaryError::CapabilityProhibited(s) => {
                push_str(&mut r, "Capability not authorized by active scope manifest: ");
                push_str(&mut r, s.as_str());
            },
            BoundaryError::InvalidTestSuiteName => {
                push_str(&mut r, "Invalid test suite target format: must be clean alphanumeric layout");
            },
            BoundaryError::PolicyDenial(s) => {
                push_str(&mut r, "Policy gate enforcement denial: ");
                push_str(&mut r, s.as_str());
            },
            BoundaryError::InvalidHumanApprovalProof => {
                push_str(
                    &mut r,
                    "Cryptographic digital signature verification failed for human approval proof",
                );
            },
            BoundaryError::AuditSystemFailure(s) => {
                push_str(&mut r, "Mandatory audit logging system failure: ");
                push_str(&mut r, s.as_str());
                push_str(&mut r, ". Failing closed.");
            },
            BoundaryError::StorageAccessError(s) => {
                push_str(&mut r, "Underlying workspace storage access error: ");
                push_str(&mut r, s.as_str());
            },
            BoundaryError::InvalidIdentifier(s) => {
                push_str(&mut r, "Malformed input identifier wrapper string: ");
                push_str(&mut r, s.as_str());
            },
            BoundaryError::InvalidCryptographicFormat(s) => {
                push_str(&mut r, "Malformed hex hash or signature structure: ");
                push_str(&mut r, s.as_str());
            },
        }
        r
    }

    /// A copy of this error.
    pub fn duplicate(&self) -> (r: BoundaryError)
        ensures
            r@ == self@,
    {
        match self {
            BoundaryError::PayloadLimitExceeded(a, b) => BoundaryError::PayloadLimitExceeded(*a, *b),
            BoundaryError::NullByteDetected => BoundaryError::NullByteDetected,
            BoundaryError::InvalidPathSpecification => BoundaryError::InvalidPathSpecification,
            BoundaryError::SymlinkEscalation => BoundaryError::SymlinkEscalation,
            BoundaryError::MalformedProviderPayload(s) => BoundaryError::MalformedProviderPayload(s.clone()),
            BoundaryError::CapabilityProhibited(s) => BoundaryError::CapabilityProhibited(s.clone()),
            BoundaryError::InvalidTestSuiteName => BoundaryError::InvalidTestSuiteName,
            BoundaryError::PolicyDenial(s) => BoundaryError::PolicyDenial(s.clone()),
            BoundaryError::InvalidHumanApprovalProof => BoundaryError::InvalidHumanApprovalProof,
            BoundaryError::AuditSystemFailure(s) => BoundaryError::AuditSystemFailure(s.clone()),
            BoundaryError::StorageAccessError(s) => BoundaryError::StorageAccessError(s.clone()),
            BoundaryError::InvalidIdentifier(s) => BoundaryError::InvalidIdentifier(s.clone()),
            BoundaryError::InvalidCryptographicFormat(s) => BoundaryError::InvalidCryptographicFormat(s.clone()),
        }
    }
}

/// Builds an error that carries the text of a literal.
pub fn policy_denial(reason: &str) -> (e: BoundaryError)
    ensures
        e@ == BoundaryErrorView::PolicyDenial(reason@),
{
    BoundaryError::PolicyDenial(reason.to_owned())
}

} // verus!
