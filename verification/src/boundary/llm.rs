//! What a model proposes, before anything about it is trusted.

use vstd::prelude::*;
use crate::boundary::errors::{BoundaryError, BoundaryErrorView};
use crate::boundary::manifest::ToolCapability;

verus! {

/// A tool call as the model wrote it: untrusted strings.
#[derive(Debug, Clone)]
pub enum RawToolProposal {
    ReadFile { path: String },
    WriteFile { path: String, content: String },
    RunTests { test_suite: String },
}

pub enum RawToolProposalView {
    ReadFile { path: Seq<char> },
    WriteFile { path: Seq<char>, content: Seq<char> },
    RunTests { test_suite: Seq<char> },
}

impl View for RawToolProposal {
    type V = RawToolProposalView;

    open spec fn view(&self) -> RawToolProposalView {
        match self {
            RawToolProposal::ReadFile { path } => RawToolProposalView::ReadFile { path: path@ },
            RawToolProposal::WriteFile { path, content } => RawToolProposalView::WriteFile {
                path: path@,
                content: content@,
            },
            RawToolProposal::RunTests { test_suite } => RawToolProposalView::RunTests {
                test_suite: test_suite@,
            },
        }
    }
}

/// The capability a proposal asks for.
pub open spec fn proposal_capability(p: RawToolProposalView) -> ToolCapability {
    match p {
        RawToolProposalView::ReadFile { .. } => ToolCapability::ReadFile,
        RawToolProposalView::WriteFile { .. } => ToolCapability::WriteFile,
        RawToolProposalView::RunTests { .. } => ToolCapability::ExecuteCargoTests,
    }
}

impl RawToolProposal {
    pub fn proposed_capability(&self) -> (r: ToolCapability)
        ensures
            r == proposal_capability(self@),
    {
        match self {
            RawToolProposal::ReadFile { .. } => ToolCapability::ReadFile,
            RawToolProposal::WriteFile { .. } => ToolCapability::WriteFile,
            RawToolProposal::RunTests { .. } => ToolCapability::ExecuteCargoTests,
        }
    }
}

/// The largest model output the boundary reads, in bytes.
pub const PAYLOAD_CEILING: usize = 524288;

/// Turns raw model output into a proposal. The decoding of the JSON document
/// itself is done by the caller's JSON decoder; the parser bounds the input
/// and classifies the decoder's verdict.
pub struct RawOutputParser;

impl RawOutputParser {
    /// Refuses output longer than 512 KiB before any decoding is attempted.
    pub fn check_payload_limit(payload: &[u8]) -> (r: Result<(), BoundaryError>)
        ensures
            payload@.len() <= PAYLOAD_CEILING ==> r is Ok,
            payload@.len() > PAYLOAD_CEILING ==> (r matches Err(e) && e@
                == BoundaryErrorView::PayloadLimitExceeded(payload@.len(), PAYLOAD_CEILING as nat)),
    {
        if payload.len() > PAYLOAD_CEILING {
            Err(BoundaryError::PayloadLimitExceeded(payload.len(), PAYLOAD_CEILING))
        } else {
            Ok(())
        }
    }

    /// The parse outcome for a payload: the size refusal first; otherwise the
    /// decoded proposal, or the decoder's message as a malformed-payload error.
    pub fn parse(payload: &[u8], decoded: Result<RawToolProposal, String>) -> (r: Result<
        RawToolProposal,
        BoundaryError,
    >)
        ensures
            payload@.len() > PAYLOAD_CEILING ==> (r matches Err(e) && e@
                == BoundaryErrorView::PayloadLimitExceeded(payload@.len(), PAYLOAD_CEILING as nat)),
            payload@.len() <= PAYLOAD_CEILING ==> match decoded {
                Ok(p) => r == Ok::<RawToolProposal, BoundaryError>(p),
                Err(msg) => (r matches Err(e) && e@ == BoundaryErrorView::MalformedProviderPayload(msg@)),
            },
    {
        RawOutputParser::check_payload_limit(payload)?;
        match decoded {
            Ok(p) => Ok(p),
            Err(msg) => Err(BoundaryError::MalformedProviderPayload(msg)),
        }
    }
}

} // verus!
