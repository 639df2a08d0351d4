//! Proposals that passed validation against a manifest, each with the digest
//! of its canonical identity.

use vstd::prelude::*;
use vstd::utf8::encode_utf8;
use crate::boundary::crypto::{sha256, sha256_digest};
use crate::boundary::errors::{policy_denial, BoundaryError, BoundaryErrorView};
use crate::boundary::identifiers::{exact_hex_valid, InvocationHash};
use crate::boundary::llm::{proposal_capability, RawToolProposal, RawToolProposalView};
use crate::boundary::manifest::{
    any_scope_authorizes, capability_wire_name, contains_capability, lemma_wire_name_injective,
    scope_authorizes, some_scope_authorizes, PathScopeView, ScopeManifest,
    ScopeManifestView, ToolCapability,
};
use crate::boundary::text::{
    hex_lower, json_string, json_string_array, lemma_hex_lower_shape,
    lemma_json_string_array_injective, lemma_json_string_injective, lemma_strip_prefix,
    push_json_string, push_json_string_array, push_str, to_hex_lower,
};
use crate::boundary::types::{
    check_file_content, lemma_parse_yields_valid_components, parse_isolated_path,
    valid_components, valid_test_suite_name, FileContent, IsolatedPath,
    TestSuiteName,
};

verus! {

/// A validated action.
#[derive(Debug)]
pub enum ValidatedToolInvocationKind {
    ReadFile { path: IsolatedPath },
    WriteFile { path: IsolatedPath, content: FileContent },
    RunTests { test_suite: TestSuiteName },
}

pub enum InvocationKindView {
    ReadFile { path: Seq<Seq<char>> },
    WriteFile { path: Seq<Seq<char>>, content: Seq<char> },
    RunTests { test_suite: Seq<char> },
}

impl View for ValidatedToolInvocationKind {
    type V = InvocationKindView;

    open spec fn view(&self) -> InvocationKindView {
        match self {
            ValidatedToolInvocationKind::ReadFile { path } => InvocationKindView::ReadFile {
                path: path@,
            },
            ValidatedToolInvocationKind::WriteFile { path, content } =>
                InvocationKindView::WriteFile { path: path@, content: content@ },
            ValidatedToolInvocationKind::RunTests { test_suite } => InvocationKindView::RunTests {
                test_suite: test_suite@,
            },
        }
    }
}

pub open spec fn kind_capability(k: InvocationKindView) -> ToolCapability {
    match k {
        InvocationKindView::ReadFile { .. } => ToolCapability::ReadFile,
        InvocationKindView::WriteFile { .. } => ToolCapability::WriteFile,
        InvocationKindView::RunTests { .. } => ToolCapability::ExecuteCargoTests,
    }
}

/// How the boundary judges a proposal against a manifest: the capability must
/// be granted; paths must parse and fall in a read (or write) scope; content
/// and suite names must be well formed.
pub open spec fn validate_proposal(p: RawToolProposalView, m: ScopeManifestView) -> Result<
    InvocationKindView,
    BoundaryErrorView,
> {
    let cap = proposal_capability(p);
    if !m.allowed_capabilities.contains(cap) {
        Err(BoundaryErrorView::CapabilityProhibited(capability_wire_name(cap)))
    } else {
        match p {
            RawToolProposalView::ReadFile { path } => match parse_isolated_path(path) {
                Err(e) => Err(e),
                Ok(cs) => if some_scope_authorizes(m.read_scopes, cs) {
                    Ok(InvocationKindView::ReadFile { path: cs })
                } else {
                    Err(
                        BoundaryErrorView::PolicyDenial(
                            "Read target unauthorized by path-scope checks"@,
                        ),
                    )
                },
            },
            RawToolProposalView::WriteFile { path, content } => match parse_isolated_path(path) {
                Err(e) => Err(e),
                Ok(cs) => match check_file_content(content) {
                    Err(e) => Err(e),
                    Ok(_) => if some_scope_authorizes(m.write_scopes, cs) {
                        Ok(InvocationKindView::WriteFile { path: cs, content })
                    } else {
                        Err(
                            BoundaryErrorView::PolicyDenial(
                                "Write target unauthorized by path-scope checks"@,
                            ),
                        )
                    },
                },
            },
            RawToolProposalView::RunTests { test_suite } => if valid_test_suite_name(test_suite) {
                Ok(InvocationKindView::RunTests { test_suite })
            } else {
                Err(BoundaryErrorView::InvalidTestSuiteName)
            },
        }
    }
}

/// Lower-case hex SHA-256 of a text's JSON string encoding.
pub open spec fn content_digest(content: Seq<char>) -> Seq<char> {
    hex_lower(sha256(encode_utf8(json_string(content))))
}

/// The canonical identity of an invocation: compact JSON with the fields
/// `capability`, `path_components`, `test_suite`, `content_sha256`, absent
/// ones written as `null`.
pub open spec fn invocation_identity_json(k: InvocationKindView) -> Seq<char> {
    "{\"capability\":"@ + json_string(capability_wire_name(kind_capability(k)))
        + ",\"path_components\":"@ + match k {
        InvocationKindView::ReadFile { path } => json_string_array(path),
        InvocationKindView::WriteFile { path, .. } => json_string_array(path),
        InvocationKindView::RunTests { .. } => "null"@,
    } + ",\"test_suite\":"@ + match k {
        InvocationKindView::RunTests { test_suite } => json_string(test_suite),
        _ => "null"@,
    } + ",\"content_sha256\":"@ + match k {
        InvocationKindView::WriteFile { content, .. } => json_string(content_digest(content)),
        _ => "null"@,
    } + "}"@
}

/// The digest an approval names an invocation by.
pub open spec fn invocation_digest(k: InvocationKindView) -> Seq<char> {
    hex_lower(sha256(encode_utf8(invocation_identity_json(k))))
}

/// A proposal that passed validation; it cannot be built any other way.
#[derive(Debug)]
pub struct ValidatedToolInvocation {
    kind: ValidatedToolInvocationKind,
    invocation_hash: InvocationHash,
}

pub struct InvocationView {
    pub kind: InvocationKindView,
    pub invocation_hash: Seq<char>,
}

impl View for ValidatedToolInvocation {
    type V = InvocationView;

    closed spec fn view(&self) -> InvocationView {
        InvocationView { kind: self.kind@, invocation_hash: self.invocation_hash@ }
    }
}

fn sha256_hex(text: &String) -> (r: String)
    ensures
        r@ == hex_lower(sha256(encode_utf8(text@))),
        exact_hex_valid(r@, 64),
{
    let digest = sha256_digest(text.as_str().as_bytes());
    let hex = to_hex_lower(digest.as_slice());
    proof {
        lemma_hex_lower_shape(digest@);
    }
    hex
}

fn identity_json(kind: &ValidatedToolInvocationKind) -> (r: String)
    ensures
        r@ == invocation_identity_json(kind@),
{
    let mut out = String::new();
    push_str(&mut out, "{\"capability\":");
    match kind {
        ValidatedToolInvocationKind::ReadFile { .. } => push_json_string(
            &mut out,
            ToolCapability::ReadFile.wire_name(),
        ),
        ValidatedToolInvocationKind::WriteFile { .. } => push_json_string(
            &mut out,
            ToolCapability::WriteFile.wire_name(),
        ),
        ValidatedToolInvocationKind::RunTests { .. } => push_json_string(
            &mut out,
            ToolCapability::ExecuteCargoTests.wire_name(),
        ),
    }
    push_str(&mut out, ",\"path_components\":");
    match kind {
        ValidatedToolInvocationKind::ReadFile { path } => push_json_string_array(
            &mut out,
            &path.to_canonical_components(),
        ),
        ValidatedToolInvocationKind::WriteFile { path, .. } => push_json_string_array(
            &mut out,
            &path.to_canonical_components(),
        ),
        ValidatedToolInvocationKind::RunTests { .. } => push_str(&mut out, "null"),
    }
    push_str(&mut out, ",\"test_suite\":");
    match kind {
        ValidatedToolInvocationKind::RunTests { test_suite } => push_json_string(
            &mut out,
            test_suite.as_str(),
        ),
        _ => push_str(&mut out, "null"),
    }
    push_str(&mut out, ",\"content_sha256\":");
    match kind {
        ValidatedToolInvocationKind::WriteFile { content, .. } => {
            let mut encoded = String::new();
            push_json_string(&mut encoded, content.as_str());
            assert(encoded@ =~= json_string(content@));
            let digest = sha256_hex(&encoded);
            push_json_string(&mut out, digest.as_str());
        },
        _ => push_str(&mut out, "null"),
    }
    push_str(&mut out, "}");
    assert(out@ =~= invocation_identity_json(kind@));
    out
}

impl ValidatedToolInvocation {
    pub fn capability(&self) -> (r: ToolCapability)
        ensures
            r == kind_capability(self@.kind),
    {
        match &self.kind {
            ValidatedToolInvocationKind::ReadFile { .. } => ToolCapability::ReadFile,
            ValidatedToolInvocationKind::WriteFile { .. } => ToolCapability::WriteFile,
            ValidatedToolInvocationKind::RunTests { .. } => ToolCapability::ExecuteCargoTests,
        }
    }

    pub fn invocation_hash(&self) -> (r: &InvocationHash)
        ensures
            r@ == self@.invocation_hash,
    {
        &self.invocation_hash
    }

    pub fn kind(&self) -> (r: &ValidatedToolInvocationKind)
        ensures
            r@ == self@.kind,
    {
        &self.kind
    }

    pub fn into_kind(self) -> (r: ValidatedToolInvocationKind)
        ensures
            r@ == self@.kind,
    {
        self.kind
    }

    /// Validates a proposal against a manifest (see [`validate_proposal`]);
    /// an accepted invocation carries the digest of its canonical identity.
    pub fn try_from_proposal(proposal: RawToolProposal, manifest: &ScopeManifest) -> (r: Result<
        Self,
        BoundaryError,
    >)
        ensures
            match validate_proposal(proposal@, manifest@) {
                Ok(k) => r matches Ok(inv) && inv@.kind == k && inv@.invocation_hash
                    == invocation_digest(k),
                Err(e) => r matches Err(x) && x@ == e,
            },
    {
        let proposed_cap = proposal.proposed_capability();
        let granted = contains_capability(&manifest.allowed_capabilities, proposed_cap);
        if !granted {
            return Err(BoundaryError::CapabilityProhibited(proposed_cap.wire_name().to_owned()));
        }
        let kind = match proposal {
            RawToolProposal::ReadFile { path } => {
                let isolated = IsolatedPath::try_from(path)?;
                if !any_scope_authorizes(&manifest.read_scopes, &isolated) {
                    return Err(policy_denial("Read target unauthorized by path-scope checks"));
                }
                ValidatedToolInvocationKind::ReadFile { path: isolated }
            },
            RawToolProposal::WriteFile { path, content } => {
                let isolated = IsolatedPath::try_from(path)?;
                let validated_content = FileContent::try_from(content)?;
                if !any_scope_authorizes(&manifest.write_scopes, &isolated) {
                    return Err(policy_denial("Write target unauthorized by path-scope checks"));
                }
                ValidatedToolInvocationKind::WriteFile { path: isolated, content: validated_content }
            },
            RawToolProposal::RunTests { test_suite } => {
                let validated_suite = TestSuiteName::try_from(test_suite)?;
                ValidatedToolInvocationKind::RunTests { test_suite: validated_suite }
            },
        };
        let identity = identity_json(&kind);
        let hash_hex = sha256_hex(&identity);
        let invocation_hash = InvocationHash::try_from(hash_hex)?;
        Ok(ValidatedToolInvocation { kind, invocation_hash })
    }
}

/// Law: how a proposal is refused. An ungranted capability is refused by its
/// wire name, before anything else is looked at. A granted read or write whose
/// path parses but lies in no scope of its kind (read scopes for a read,
/// write scopes for a write) is a policy denial; a write is screened for its
/// content first.
pub proof fn lemma_proposals_are_refused(p: RawToolProposalView, m: ScopeManifestView)
    ensures
        !m.allowed_capabilities.contains(proposal_capability(p)) ==> validate_proposal(p, m) == Err::<
            InvocationKindView,
            BoundaryErrorView,
        >(BoundaryErrorView::CapabilityProhibited(capability_wire_name(proposal_capability(p)))),
        (p matches RawToolProposalView::ReadFile { path } && m.allowed_capabilities.contains(
            proposal_capability(p),
        ) && parse_isolated_path(path) is Ok && (forall|scope: PathScopeView|
            m.read_scopes.contains(scope) ==> !scope_authorizes(scope, parse_isolated_path(path)->Ok_0))
            ==> validate_proposal(p, m) == Err::<InvocationKindView, BoundaryErrorView>(
            BoundaryErrorView::PolicyDenial("Read target unauthorized by path-scope checks"@),
        )),
        (p matches RawToolProposalView::WriteFile { path, content } && m.allowed_capabilities.contains(
            proposal_capability(p),
        ) && parse_isolated_path(path) is Ok && check_file_content(content) is Ok && (forall|
            scope: PathScopeView,
        |
            m.write_scopes.contains(scope) ==> !scope_authorizes(scope, parse_isolated_path(path)->Ok_0))
            ==> validate_proposal(p, m) == Err::<InvocationKindView, BoundaryErrorView>(
            BoundaryErrorView::PolicyDenial("Write target unauthorized by path-scope checks"@),
        )),
{
}

/// Law: a proposal is accepted whenever its capability is granted and it
/// passes its own checks: a read whose path parses and lies in some read
/// scope; a write whose path parses and lies in some write scope and whose
/// content passes screening (the read scopes play no part); a test run with
/// a well-formed suite name. The invocation carries the parsed path, the
/// content and the suite name unchanged.
pub proof fn lemma_granted_proposals_in_scope_are_accepted(
    p: RawToolProposalView,
    m: ScopeManifestView,
    scope: PathScopeView,
)
    requires
        m.allowed_capabilities.contains(proposal_capability(p)),
        match p {
            RawToolProposalView::ReadFile { path } => {
                &&& parse_isolated_path(path) is Ok
                &&& m.read_scopes.contains(scope)
                &&& scope_authorizes(scope, parse_isolated_path(path)->Ok_0)
            },
            RawToolProposalView::WriteFile { path, content } => {
                &&& parse_isolated_path(path) is Ok
                &&& check_file_content(content) is Ok
                &&& m.write_scopes.contains(scope)
                &&& scope_authorizes(scope, parse_isolated_path(path)->Ok_0)
            },
            RawToolProposalView::RunTests { test_suite } => valid_test_suite_name(test_suite),
        },
    ensures
        validate_proposal(p, m) == Ok::<InvocationKindView, BoundaryErrorView>(
            match p {
                RawToolProposalView::ReadFile { path } => InvocationKindView::ReadFile {
                    path: parse_isolated_path(path)->Ok_0,
                },
                RawToolProposalView::WriteFile { path, content } => InvocationKindView::WriteFile {
                    path: parse_isolated_path(path)->Ok_0,
                    content,
                },
                RawToolProposalView::RunTests { test_suite } => InvocationKindView::RunTests {
                    test_suite,
                },
            },
        ),
{
}

/// Law: what validation accepts is granted. Its capability is in the
/// manifest; a read path lies in some read scope and a write path in some
/// write scope; and every path is normalized (no `..`, no absolute path).
pub proof fn lemma_validated_invocations_are_granted(p: RawToolProposalView, m: ScopeManifestView)
    requires
        validate_proposal(p, m) is Ok,
    ensures
        m.allowed_capabilities.contains(kind_capability(validate_proposal(p, m)->Ok_0)),
        kind_capability(validate_proposal(p, m)->Ok_0) == proposal_capability(p),
        validate_proposal(p, m)->Ok_0 matches InvocationKindView::ReadFile { path } ==> (
        some_scope_authorizes(m.read_scopes, path) && valid_components(path)),
        validate_proposal(p, m)->Ok_0 matches InvocationKindView::WriteFile { path, content } ==> (
        some_scope_authorizes(m.write_scopes, path) && valid_components(path) && check_file_content(
            content,
        ) is Ok),
        validate_proposal(p, m)->Ok_0 matches InvocationKindView::RunTests { test_suite }
            ==> valid_test_suite_name(test_suite),
{
    match p {
        RawToolProposalView::ReadFile { path } => {
            lemma_parse_yields_valid_components(path);
        },
        RawToolProposalView::WriteFile { path, .. } => {
            lemma_parse_yields_valid_components(path);
        },
        _ => {},
    }
}

/// What the identity text holds after the path components.
spec fn identity_after_path(k: InvocationKindView) -> Seq<char> {
    ",\"test_suite\":"@ + (match k {
        InvocationKindView::RunTests { test_suite } => json_string(test_suite),
        _ => "null"@,
    } + (",\"content_sha256\":"@ + (match k {
        InvocationKindView::WriteFile { content, .. } => json_string(content_digest(content)),
        _ => "null"@,
    } + "}"@)))
}

/// What the identity text holds after the capability.
spec fn identity_after_capability(k: InvocationKindView) -> Seq<char> {
    ",\"path_components\":"@ + (match k {
        InvocationKindView::ReadFile { path } => json_string_array(path),
        InvocationKindView::WriteFile { path, .. } => json_string_array(path),
        InvocationKindView::RunTests { .. } => "null"@,
    } + identity_after_path(k))
}

proof fn lemma_identity_parts(k: InvocationKindView)
    ensures
        invocation_identity_json(k) == "{\"capability\":"@ + (json_string(
            capability_wire_name(kind_capability(k)),
        ) + identity_after_capability(k)),
{
    assert(invocation_identity_json(k) =~= "{\"capability\":"@ + (json_string(
        capability_wire_name(kind_capability(k)),
    ) + identity_after_capability(k)));
}

/// Law: the identity text names the invocation. Two invocations with the
/// same identity text have the same capability; reads name the same path,
/// test runs the same suite, and writes the same path and content digest.
/// Invocations that differ otherwise thus have different identity texts, and
/// equal invocation digests would take a SHA-256 collision.
pub proof fn lemma_identity_names_the_invocation(k1: InvocationKindView, k2: InvocationKindView)
    requires
        invocation_identity_json(k1) == invocation_identity_json(k2),
    ensures
        kind_capability(k1) == kind_capability(k2),
        k1 is ReadFile ==> k1 == k2,
        k1 is RunTests ==> k1 == k2,
        k1 matches InvocationKindView::WriteFile { path, content } ==> (k2 matches InvocationKindView::WriteFile {
            path: q,
            content: d,
        } && path == q && content_digest(content) == content_digest(d)),
{
    lemma_identity_parts(k1);
    lemma_identity_parts(k2);
    let c1 = capability_wire_name(kind_capability(k1));
    let c2 = capability_wire_name(kind_capability(k2));
    lemma_strip_prefix(
        "{\"capability\":"@,
        json_string(c1) + identity_after_capability(k1),
        json_string(c2) + identity_after_capability(k2),
    );
    lemma_json_string_injective(c1, c2, identity_after_capability(k1), identity_after_capability(k2));
    lemma_wire_name_injective(kind_capability(k1), kind_capability(k2));
    let lp = ",\"path_components\":"@;
    match k1 {
        InvocationKindView::ReadFile { path } => {
            let q = k2->ReadFile_path;
            lemma_strip_prefix(
                lp,
                json_string_array(path) + identity_after_path(k1),
                json_string_array(q) + identity_after_path(k2),
            );
            lemma_json_string_array_injective(path, q, identity_after_path(k1), identity_after_path(k2));
        },
        InvocationKindView::RunTests { test_suite } => {
            let t = k2->RunTests_test_suite;
            lemma_strip_prefix(lp, "null"@ + identity_after_path(k1), "null"@ + identity_after_path(k2));
            lemma_strip_prefix("null"@, identity_after_path(k1), identity_after_path(k2));
            let tail = ",\"content_sha256\":"@ + ("null"@ + "}"@);
            lemma_strip_prefix(
                ",\"test_suite\":"@,
                json_string(test_suite) + tail,
                json_string(t) + tail,
            );
            lemma_json_string_injective(test_suite, t, tail, tail);
        },
        InvocationKindView::WriteFile { path, content } => {
            let q = k2->WriteFile_path;
            let d = k2->WriteFile_content;
            lemma_strip_prefix(
                lp,
                json_string_array(path) + identity_after_path(k1),
                json_string_array(q) + identity_after_path(k2),
            );
            lemma_json_string_array_injective(path, q, identity_after_path(k1), identity_after_path(k2));
            let l2 = ",\"test_suite\":"@ + ("null"@ + ",\"content_sha256\":"@);
            assert(identity_after_path(k1) =~= l2 + (json_string(content_digest(content)) + "}"@));
            assert(identity_after_path(k2) =~= l2 + (json_string(content_digest(d)) + "}"@));
            lemma_strip_prefix(
                l2,
                json_string(content_digest(content)) + "}"@,
                json_string(content_digest(d)) + "}"@,
            );
            lemma_json_string_injective(content_digest(content), content_digest(d), "}"@, "}"@);
        },
    }
}

} // verus!
