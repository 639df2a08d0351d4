//! Human approvals: signed tickets that let a production mutation through.

use vstd::prelude::*;
use vstd::pervasive::unreached;
use vstd::utf8::{encode_utf8, is_ascii_chars, is_ascii_chars_encode_utf8};
use crate::boundary::crypto::{
    ed25519_strict_accepts, ed25519_verify_strict, hex_decode, hex_decoded, is_hex_byte,
    is_hex_text, signature_from_slice,
};
use crate::boundary::errors::{answer_view, policy_denial, BoundaryError, BoundaryErrorView};
use crate::boundary::identifiers::{
    all_in_alphabet, alphabet_allows, bounded_id_valid, exact_hex_valid, lemma_alphabet_is_ascii,
    ActorId,
    ApprovalId, ApprovalIssuerId, ApprovalSignature, IdentifierAlphabet, InvocationHash,
    ManifestHash, SessionId, TicketReference,
};
use crate::boundary::manifest::{capability_wire_name, lemma_wire_name_injective, ToolCapability};
use crate::boundary::text::{
    decimal, lemma_decimal_injective, lemma_decimal_no_line_break, push_decimal, push_str,
};

verus! {

/// A human's signed approval of one invocation under one manifest in one session.
#[derive(Debug, Clone)]
pub struct HumanApprovalProof {
    pub approval_id: ApprovalId,
    pub issuer_id: ApprovalIssuerId,
    pub approver_identity: ActorId,
    pub session_id: SessionId,
    pub expected_manifest_hash: ManifestHash,
    pub expected_invocation_hash: InvocationHash,
    pub capability: ToolCapability,
    pub ticket_reference: TicketReference,
    pub approval_version: u32,
    pub issued_at: u64,
    pub expires_at: u64,
    pub signature: ApprovalSignature,
}

pub struct HumanApprovalProofView {
    pub approval_id: Seq<char>,
    pub issuer_id: Seq<char>,
    pub approver_identity: Seq<char>,
    pub session_id: Seq<char>,
    pub expected_manifest_hash: Seq<char>,
    pub expected_invocation_hash: Seq<char>,
    pub capability: ToolCapability,
    pub ticket_reference: Seq<char>,
    pub approval_version: u32,
    pub issued_at: u64,
    pub expires_at: u64,
    pub signature: Seq<char>,
}

impl View for HumanApprovalProof {
    type V = HumanApprovalProofView;

    open spec fn view(&self) -> HumanApprovalProofView {
        HumanApprovalProofView {
            approval_id: self.approval_id@,
            issuer_id: self.issuer_id@,
            approver_identity: self.approver_identity@,
            session_id: self.session_id@,
            expected_manifest_hash: self.expected_manifest_hash@,
            expected_invocation_hash: self.expected_invocation_hash@,
            capability: self.capability,
            ticket_reference: self.ticket_reference@,
            approval_version: self.approval_version,
            issued_at: self.issued_at,
            expires_at: self.expires_at,
            signature: self.signature@,
        }
    }
}

/// What an approval must match: the session, the manifest and invocation
/// digests, the capability, and the time of the check.
pub struct ApprovalVerificationContext<'a> {
    pub session_id: &'a SessionId,
    pub manifest_hash: &'a ManifestHash,
    pub invocation_hash: &'a InvocationHash,
    pub capability: ToolCapability,
    pub current_time: u64,
}

pub struct ApprovalContextView {
    pub session_id: Seq<char>,
    pub manifest_hash: Seq<char>,
    pub invocation_hash: Seq<char>,
    pub capability: ToolCapability,
    pub current_time: u64,
}

impl<'a> View for ApprovalVerificationContext<'a> {
    type V = ApprovalContextView;

    open spec fn view(&self) -> ApprovalContextView {
        ApprovalContextView {
            session_id: self.session_id@,
            manifest_hash: self.manifest_hash@,
            invocation_hash: self.invocation_hash@,
            capability: self.capability,
            current_time: self.current_time,
        }
    }
}

/// Where approval issuers' keys and authorizations come from.
///
/// Each method comes with a relation over the answers it may give. A keyring
/// that defines a relation binds its answers to it; one that keeps the
/// default claims nothing.
pub trait ApprovalKeyring {
    /// Whether `answer` (a 32-byte compressed Ed25519 public key, or a
    /// refusal) is an answer this keyring may give for `issuer`'s key.
    closed spec fn key_answer(&self, issuer: Seq<char>, answer: Result<Seq<u8>, BoundaryErrorView>) -> bool {
        true
    }

    /// Whether `answer` is an answer this keyring may give when asked if
    /// `issuer` may approve uses of `capability`.
    closed spec fn issuer_answer(
        &self,
        issuer: Seq<char>,
        capability: ToolCapability,
        answer: Result<(), BoundaryErrorView>,
    ) -> bool {
        true
    }

    /// Whether `answer` is an answer this keyring may give when asked if
    /// `actor` may approve uses of `capability`.
    closed spec fn actor_answer(
        &self,
        actor: Seq<char>,
        capability: ToolCapability,
        answer: Result<(), BoundaryErrorView>,
    ) -> bool {
        true
    }

    /// The issuer's public key, as its 32-byte compressed encoding.
    fn public_key_for_issuer(&self, issuer: &ApprovalIssuerId) -> (r: Result<[u8; 32], BoundaryError>)
        ensures
            self.key_answer(issuer@, key_view(r)),
    ;

    fn issuer_is_authorized_for_capability(
        &self,
        issuer: &ApprovalIssuerId,
        capability: ToolCapability,
    ) -> (r: Result<(), BoundaryError>)
        ensures
            self.issuer_answer(issuer@, capability, answer_view(r)),
    ;

    fn actor_is_authorized_for_capability(
        &self,
        actor: &ActorId,
        capability: ToolCapability,
    ) -> (r: Result<(), BoundaryError>)
        ensures
            self.actor_answer(actor@, capability, answer_view(r)),
    ;
}

/// A keyring's answer for a key, with the key and the error taken by their views.
pub open spec fn key_view(r: Result<[u8; 32], BoundaryError>) -> Result<Seq<u8>, BoundaryErrorView> {
    match r {
        Ok(k) => Ok(k@),
        Err(e) => Err(e@),
    }
}

/// Where approval tickets and single-use reservations are tracked.
///
/// As with [`ApprovalKeyring`], each method comes with a relation over the
/// answers it may give; a store that keeps the default claims nothing.
pub trait ApprovalStateStore {
    /// Whether `answer` is an answer this store may give when asked if
    /// `ticket` is open.
    closed spec fn ticket_answer(&self, ticket: Seq<char>, answer: Result<(), BoundaryErrorView>) -> bool {
        true
    }

    /// Whether `answer` is an answer this store may give when asked to
    /// reserve the approval `approval_id` for `reservation_ttl_secs`; `Ok`
    /// means the approval is reserved.
    closed spec fn reservation_answer(
        &self,
        approval_id: Seq<char>,
        reservation_ttl_secs: u64,
        answer: Result<(), BoundaryErrorView>,
    ) -> bool {
        true
    }

    /// Whether `answer` is an answer this store may give when asked to use
    /// up the reserved approval `approval_id`; `Ok` means it is used up.
    closed spec fn consumption_answer(&self, approval_id: Seq<char>, answer: Result<(), BoundaryErrorView>) -> bool {
        true
    }

    fn is_ticket_active(&self, ticket: &TicketReference) -> (r: Result<(), BoundaryError>)
        ensures
            self.ticket_answer(ticket@, answer_view(r)),
    ;

    fn reserve_approval(&self, approval_id: &ApprovalId, reservation_ttl_secs: u64) -> (r: Result<
        (),
        BoundaryError,
    >)
        ensures
            self.reservation_answer(approval_id@, reservation_ttl_secs, answer_view(r)),
    ;

    fn consume_reserved_approval(&self, approval_id: &ApprovalId) -> (r: Result<(), BoundaryError>)
        ensures
            self.consumption_answer(approval_id@, answer_view(r)),
    ;

    fn release_reserved_approval(&self, approval_id: &ApprovalId) -> Result<(), BoundaryError>;
}

/// Checks an approval against the context it is presented in.
pub trait ApprovalVerifier {
    /// Whether `answer` is a verdict this verifier may give on `proof` in
    /// `context`. Verifiers that do not define it claim nothing.
    closed spec fn approval_answer(
        &self,
        proof: HumanApprovalProofView,
        context: ApprovalContextView,
        answer: Result<(), BoundaryErrorView>,
    ) -> bool {
        true
    }

    fn verify_approval(
        &self,
        proof: &HumanApprovalProof,
        context: &ApprovalVerificationContext,
    ) -> (r: Result<(), BoundaryError>)
        ensures
            self.approval_answer(proof@, context@, answer_view(r)),
    ;
}

/// The claims an approval makes that can be checked without its signature,
/// in the order they are checked: version 1, same session, same manifest,
/// same invocation, same capability, not expired, not issued in the future.
pub open spec fn check_approval_claims(p: HumanApprovalProofView, c: ApprovalContextView) -> Result<
    (),
    BoundaryErrorView,
> {
    if p.approval_version != 1 {
        Err(BoundaryErrorView::InvalidHumanApprovalProof)
    } else if p.session_id != c.session_id {
        Err(BoundaryErrorView::PolicyDenial("Session ID mismatch"@))
    } else if p.expected_manifest_hash != c.manifest_hash {
        Err(BoundaryErrorView::PolicyDenial("Manifest hash mismatch"@))
    } else if p.expected_invocation_hash != c.invocation_hash {
        Err(BoundaryErrorView::PolicyDenial("Invocation hash mismatch"@))
    } else if p.capability != c.capability {
        Err(BoundaryErrorView::PolicyDenial("Capability mismatch"@))
    } else if c.current_time > p.expires_at {
        Err(BoundaryErrorView::PolicyDenial("Approval token expired"@))
    } else if c.current_time < p.issued_at {
        Err(BoundaryErrorView::PolicyDenial("Approval token issued in future"@))
    } else {
        Ok(())
    }
}

/// The text an approval's signature covers: one `name=value` line per field.
pub open spec fn canonical_approval_message(p: HumanApprovalProofView) -> Seq<char> {
    "approval_version="@ + decimal(p.approval_version as nat) + "\napproval_id="@ + p.approval_id
        + "\nissuer_id="@ + p.issuer_id + "\napprover_identity="@ + p.approver_identity
        + "\nsession_id="@ + p.session_id + "\nmanifest_hash="@ + p.expected_manifest_hash
        + "\ninvocation_hash="@ + p.expected_invocation_hash + "\ncapability="@
        + capability_wire_name(p.capability) + "\nticket_reference="@ + p.ticket_reference
        + "\nissued_at="@ + decimal(p.issued_at as nat) + "\nexpires_at="@ + decimal(
        p.expires_at as nat,
    )
}

/// The 64 signature bytes an approval carries in hex.
pub open spec fn approval_signature_bytes(p: HumanApprovalProofView) -> Seq<u8> {
    hex_decoded(encode_utf8(p.signature))
}

/// Whether the signature over the canonical message verifies under the key
/// with compressed encoding `public_key`.
pub open spec fn approval_signature_valid(public_key: Seq<u8>, p: HumanApprovalProofView) -> bool {
    ed25519_strict_accepts(
        public_key,
        encode_utf8(canonical_approval_message(p)),
        approval_signature_bytes(p),
    )
}

fn approval_message(proof: &HumanApprovalProof) -> (r: String)
    ensures
        r@ == canonical_approval_message(proof@),
{
    let mut m = String::new();
    push_str(&mut m, "approval_version=");
    push_decimal(&mut m, proof.approval_version as u64);
    push_str(&mut m, "\napproval_id=");
    push_str(&mut m, proof.approval_id.as_str());
    push_str(&mut m, "\nissuer_id=");
    push_str(&mut m, proof.issuer_id.as_str());
    push_str(&mut m, "\napprover_identity=");
    push_str(&mut m, proof.approver_identity.as_str());
    push_str(&mut m, "\nsession_id=");
    push_str(&mut m, proof.session_id.as_str());
    push_str(&mut m, "\nmanifest_hash=");
    push_str(&mut m, proof.expected_manifest_hash.as_str());
    push_str(&mut m, "\ninvocation_hash=");
    push_str(&mut m, proof.expected_invocation_hash.as_str());
    push_str(&mut m, "\ncapability=");
    push_str(&mut m, proof.capability.wire_name());
    push_str(&mut m, "\nticket_reference=");
    push_str(&mut m, proof.ticket_reference.as_str());
    push_str(&mut m, "\nissued_at=");
    push_decimal(&mut m, proof.issued_at);
    push_str(&mut m, "\nexpires_at=");
    push_decimal(&mut m, proof.expires_at);
    assert(m@ =~= canonical_approval_message(proof@));
    m
}

/// Checks the claims of [`check_approval_claims`], exactly.
pub fn check_claims(proof: &HumanApprovalProof, context: &ApprovalVerificationContext) -> (r: Result<
    (),
    BoundaryError,
>)
    ensures
        match check_approval_claims(proof@, context@) {
            Ok(_) => r is Ok,
            Err(e) => r matches Err(x) && x@ == e,
        },
{
    if proof.approval_version != 1 {
        return Err(BoundaryError::InvalidHumanApprovalProof);
    }
    if proof.session_id != *context.session_id {
        return Err(policy_denial("Session ID mismatch"));
    }
    if proof.expected_manifest_hash != *context.manifest_hash {
        return Err(policy_denial("Manifest hash mismatch"));
    }
    if proof.expected_invocation_hash != *context.invocation_hash {
        return Err(policy_denial("Invocation hash mismatch"));
    }
    if proof.capability != context.capability {
        return Err(policy_denial("Capability mismatch"));
    }
    if context.current_time > proof.expires_at {
        return Err(policy_denial("Approval token expired"));
    }
    if context.current_time < proof.issued_at {
        return Err(policy_denial("Approval token issued in future"));
    }
    Ok(())
}

/// The signature bytes an approval carries: its 128 hexadecimal digits
/// always spell 64 bytes.
pub fn signature_bytes(proof: &HumanApprovalProof) -> (r: [u8; 64])
    ensures
        r@ == approval_signature_bytes(proof@),
{
    let sig_text = proof.signature.as_str();
    let sig_bytes = sig_text.as_bytes();
    proof {
        let s = proof.signature@;
        lemma_alphabet_is_ascii(s, IdentifierAlphabet::Hex);
        is_ascii_chars_encode_utf8(s);
        assert forall|i: int| 0 <= i < sig_bytes@.len() implies is_hex_byte(#[trigger] sig_bytes@[i]) by {
            assert(alphabet_allows(IdentifierAlphabet::Hex, s[i]));
            assert(sig_bytes@[i] == s[i] as u8);
        }
    }
    let decoded = match hex_decode(sig_bytes) {
        Ok(v) => v,
        Err(_) => unreached(),
    };
    match signature_from_slice(decoded.as_slice()) {
        Ok(sig) => sig,
        Err(_) => unreached(),
    }
}

/// Checks an approval's signature under the issuer key with compressed
/// encoding `public_key`.
pub fn check_signature(public_key: &[u8; 32], proof: &HumanApprovalProof) -> (r: Result<
    (),
    BoundaryError,
>)
    ensures
        r is Ok <==> approval_signature_valid(public_key@, proof@),
        r matches Err(e) ==> e@ == BoundaryErrorView::InvalidHumanApprovalProof,
{
    let signature = signature_bytes(proof);
    verify_signature(public_key, proof, &signature)
}

fn verify_signature(public_key: &[u8; 32], proof: &HumanApprovalProof, signature: &[u8; 64]) -> (r:
    Result<(), BoundaryError>)
    requires
        signature@ == approval_signature_bytes(proof@),
    ensures
        r is Ok <==> approval_signature_valid(public_key@, proof@),
        r matches Err(e) ==> e@ == BoundaryErrorView::InvalidHumanApprovalProof,
{
    let message = approval_message(proof);
    match ed25519_verify_strict(public_key, message.as_str().as_bytes(), signature) {
        Ok(()) => Ok(()),
        Err(_) => Err(BoundaryError::InvalidHumanApprovalProof),
    }
}

/// Verifies approvals signed with Ed25519 by issuers a keyring knows.
pub struct Ed25519TicketingVerifier<K> {
    keyring: K,
}

impl<K: ApprovalKeyring> Ed25519TicketingVerifier<K> {
    pub fn new(keyring: K) -> (r: Self)
        ensures
            r.keyring() == keyring,
    {
        Self { keyring }
    }

    pub closed spec fn keyring(&self) -> K {
        self.keyring
    }
}

/// Checks the signature under the key the keyring answered with: the
/// keyring's refusal is passed on; otherwise the signature must verify under
/// the key, or the approval is invalid.
pub fn check_issuer_signature(
    key: Result<[u8; 32], BoundaryError>,
    proof: &HumanApprovalProof,
    signature: &[u8; 64],
) -> (r: Result<(), BoundaryError>)
    requires
        signature@ == approval_signature_bytes(proof@),
    ensures
        match key {
            Err(e) => r == Err::<(), BoundaryError>(e),
            Ok(k) => (r is Ok <==> approval_signature_valid(k@, proof@)) && (r matches Err(e) ==> e@
                == BoundaryErrorView::InvalidHumanApprovalProof),
        },
{
    match key {
        Err(e) => Err(e),
        Ok(k) => verify_signature(&k, proof, signature),
    }
}

/// The verdict on an approval whose signature bytes decode: the claims are
/// checked first (see [`check_approval_claims`]); then the keyring is asked,
/// in turn, whether the issuer and the approver may grant the capability and
/// for the issuer's key. Each question is asked only once the ones before it
/// passed, its answer is one the keyring may give, and the first refusal is
/// the verdict, unchanged. With a key, the approval is accepted exactly when
/// its signature verifies under it.
pub open spec fn keyring_verdict<K: ApprovalKeyring>(
    keyring: K,
    proof: HumanApprovalProofView,
    context: ApprovalContextView,
    answer: Result<(), BoundaryErrorView>,
) -> bool {
    match check_approval_claims(proof, context) {
        Err(e) => answer == Err::<(), BoundaryErrorView>(e),
        Ok(_) => exists|issuer: Result<(), BoundaryErrorView>|
            #[trigger] keyring.issuer_answer(proof.issuer_id, context.capability, issuer) && match issuer {
                Err(e) => answer == Err::<(), BoundaryErrorView>(e),
                Ok(_) => exists|actor: Result<(), BoundaryErrorView>|
                    #[trigger] keyring.actor_answer(proof.approver_identity, context.capability, actor)
                        && match actor {
                        Err(e) => answer == Err::<(), BoundaryErrorView>(e),
                        Ok(_) => exists|key: Result<Seq<u8>, BoundaryErrorView>|
                            #[trigger] keyring.key_answer(proof.issuer_id, key) && match key {
                                Err(e) => answer == Err::<(), BoundaryErrorView>(e),
                                Ok(k) => answer == if approval_signature_valid(k, proof) {
                                    Ok::<(), BoundaryErrorView>(())
                                } else {
                                    Err(BoundaryErrorView::InvalidHumanApprovalProof)
                                },
                            },
                    },
            },
    }
}

impl<K: ApprovalKeyring> ApprovalVerifier for Ed25519TicketingVerifier<K> {
    /// The verdict [`keyring_verdict`] gives with this verifier's keyring.
    open spec fn approval_answer(
        &self,
        proof: HumanApprovalProofView,
        context: ApprovalContextView,
        answer: Result<(), BoundaryErrorView>,
    ) -> bool {
        keyring_verdict(self.keyring(), proof, context, answer)
    }

    /// Checks the claims (see [`check_approval_claims`]); then that the
    /// keyring lets the issuer and the approver grant the capability; then
    /// decodes the signature and checks it under the issuer's key (see
    /// [`check_issuer_signature`]).
    fn verify_approval(
        &self,
        proof: &HumanApprovalProof,
        context: &ApprovalVerificationContext,
    ) -> (r: Result<(), BoundaryError>)
    {
        let claims = check_claims(proof, context);
        if let Err(e) = claims {
            return Err(e);
        }
        let issuer = self.keyring.issuer_is_authorized_for_capability(
            &proof.issuer_id,
            context.capability,
        );
        if let Err(e) = issuer {
            assert(self.keyring.issuer_answer(proof@.issuer_id, context.capability, answer_view(issuer)));
            return Err(e);
        }
        let actor = self.keyring.actor_is_authorized_for_capability(
            &proof.approver_identity,
            context.capability,
        );
        if let Err(e) = actor {
            assert(self.keyring.issuer_answer(proof@.issuer_id, context.capability, answer_view(issuer)));
            assert(self.keyring.actor_answer(proof@.approver_identity, context.capability, answer_view(actor)));
            return Err(e);
        }
        let signature = signature_bytes(proof);
        let key = self.keyring.public_key_for_issuer(&proof.issuer_id);
        let r = check_issuer_signature(key, proof, &signature);
        assert(self.keyring.issuer_answer(proof@.issuer_id, context.capability, answer_view(issuer)));
        assert(self.keyring.actor_answer(proof@.approver_identity, context.capability, answer_view(actor)));
        assert(self.keyring.key_answer(proof@.issuer_id, key_view(key)));
        r
    }
}

/// Law: once an approval's claims hold, the keyring's refusals decide, in
/// order. If the keyring can only refuse the issuer with `x`, the verdict is
/// `x`. If it lets the issuer through but can only refuse the approver with
/// `x`, the verdict is `x`. If it lets both through but can only refuse the
/// issuer's key with `x`, the verdict is `x`. If it lets both through and can
/// only answer with a key under which the signature does not verify, the
/// approval is invalid.
pub proof fn lemma_keyring_refusals_decide<K: ApprovalKeyring>(
    verifier: Ed25519TicketingVerifier<K>,
    proof: HumanApprovalProofView,
    context: ApprovalContextView,
    x: BoundaryErrorView,
    k: Seq<u8>,
    answer: Result<(), BoundaryErrorView>,
)
    requires
        check_approval_claims(proof, context) is Ok,
        verifier.approval_answer(proof, context, answer),
    ensures
        (forall|a: Result<(), BoundaryErrorView>|
            #[trigger] verifier.keyring().issuer_answer(proof.issuer_id, context.capability, a) ==> a
                == Err::<(), BoundaryErrorView>(x)) ==> answer == Err::<(), BoundaryErrorView>(x),
        (forall|a: Result<(), BoundaryErrorView>|
            #[trigger] verifier.keyring().issuer_answer(proof.issuer_id, context.capability, a) ==> a
                is Ok) && (forall|a: Result<(), BoundaryErrorView>|
            #[trigger] verifier.keyring().actor_answer(proof.approver_identity, context.capability, a)
                ==> a == Err::<(), BoundaryErrorView>(x)) ==> answer == Err::<(), BoundaryErrorView>(x),
        (forall|a: Result<(), BoundaryErrorView>|
            #[trigger] verifier.keyring().issuer_answer(proof.issuer_id, context.capability, a) ==> a
                is Ok) && (forall|a: Result<(), BoundaryErrorView>|
            #[trigger] verifier.keyring().actor_answer(proof.approver_identity, context.capability, a)
                ==> a is Ok) && (forall|a: Result<Seq<u8>, BoundaryErrorView>|
            #[trigger] verifier.keyring().key_answer(proof.issuer_id, a) ==> a == Err::<
                Seq<u8>,
                BoundaryErrorView,
            >(x)) ==> answer == Err::<(), BoundaryErrorView>(x),
        (forall|a: Result<(), BoundaryErrorView>|
            #[trigger] verifier.keyring().issuer_answer(proof.issuer_id, context.capability, a) ==> a
                is Ok) && (forall|a: Result<(), BoundaryErrorView>|
            #[trigger] verifier.keyring().actor_answer(proof.approver_identity, context.capability, a)
                ==> a is Ok) && (forall|a: Result<Seq<u8>, BoundaryErrorView>|
            #[trigger] verifier.keyring().key_answer(proof.issuer_id, a) ==> a == Ok::<
                Seq<u8>,
                BoundaryErrorView,
            >(k)) && !approval_signature_valid(k, proof) ==> answer == Err::<(), BoundaryErrorView>(
            BoundaryErrorView::InvalidHumanApprovalProof,
        ),
{
}

/// Law: an approval is accepted when each of its checks passes: its claims
/// hold, the keyring can only answer that the issuer and the approver may
/// grant the capability, it can only answer with the key `k` for the issuer,
/// and the signature verifies under `k`.
pub proof fn lemma_accepted_when_every_check_passes<K: ApprovalKeyring>(
    keyring: K,
    proof: HumanApprovalProofView,
    context: ApprovalContextView,
    k: Seq<u8>,
    answer: Result<(), BoundaryErrorView>,
)
    requires
        check_approval_claims(proof, context) is Ok,
        forall|a: Result<(), BoundaryErrorView>|
            #[trigger] keyring.issuer_answer(proof.issuer_id, context.capability, a) ==> a is Ok,
        forall|a: Result<(), BoundaryErrorView>|
            #[trigger] keyring.actor_answer(proof.approver_identity, context.capability, a) ==> a is Ok,
        forall|a: Result<Seq<u8>, BoundaryErrorView>|
            #[trigger] keyring.key_answer(proof.issuer_id, a) ==> a == Ok::<
                Seq<u8>,
                BoundaryErrorView,
            >(k),
        approval_signature_valid(k, proof),
        keyring_verdict(keyring, proof, context, answer),
    ensures
        answer == Ok::<(), BoundaryErrorView>(()),
{
}

/// Law: an approval's claims hold exactly when it is of version 1, names the
/// context's session, manifest digest, invocation digest and capability, and
/// the context's time lies within its window, bounds included.
pub proof fn lemma_claims_hold_exactly_in_context(p: HumanApprovalProofView, c: ApprovalContextView)
    ensures
        check_approval_claims(p, c) is Ok <==> {
            &&& p.approval_version == 1
            &&& p.session_id == c.session_id
            &&& p.expected_manifest_hash == c.manifest_hash
            &&& p.expected_invocation_hash == c.invocation_hash
            &&& p.capability == c.capability
            &&& p.issued_at <= c.current_time <= p.expires_at
        },
        p.approval_version == 1 && p.session_id == c.session_id && p.expected_manifest_hash
            == c.manifest_hash && p.expected_invocation_hash == c.invocation_hash && p.capability
            == c.capability && c.current_time > p.expires_at ==> check_approval_claims(p, c)
            == Err::<(), BoundaryErrorView>(BoundaryErrorView::PolicyDenial("Approval token expired"@)),
        p.approval_version != 1 ==> check_approval_claims(p, c) == Err::<(), BoundaryErrorView>(
            BoundaryErrorView::InvalidHumanApprovalProof,
        ),
{
}

/// Law: an approval is honoured only in the session, for the manifest, the
/// invocation and the capability it names, and only within its validity
/// window.
pub proof fn lemma_accepted_claims_match_context(p: HumanApprovalProofView, c: ApprovalContextView)
    requires
        check_approval_claims(p, c) is Ok,
    ensures
        p.approval_version == 1,
        p.session_id == c.session_id,
        p.expected_manifest_hash == c.manifest_hash,
        p.expected_invocation_hash == c.invocation_hash,
        p.capability == c.capability,
        p.issued_at <= c.current_time <= p.expires_at,
{
}

// ---------------------------------------------------------------- the signed text names the approval

/// What the identifier types guarantee of an approval's text fields.
pub open spec fn approval_view_valid(p: HumanApprovalProofView) -> bool {
    &&& bounded_id_valid(p.approval_id, 64, IdentifierAlphabet::Plain)
    &&& bounded_id_valid(p.issuer_id, 64, IdentifierAlphabet::Plain)
    &&& bounded_id_valid(p.approver_identity, 128, IdentifierAlphabet::Actor)
    &&& bounded_id_valid(p.session_id, 64, IdentifierAlphabet::Plain)
    &&& exact_hex_valid(p.expected_manifest_hash, 64)
    &&& exact_hex_valid(p.expected_invocation_hash, 64)
    &&& bounded_id_valid(p.ticket_reference, 128, IdentifierAlphabet::Ticket)
}

pub open spec fn no_line_break(s: Seq<char>) -> bool {
    forall|i: int| 0 <= i < s.len() ==> #[trigger] s[i] != '\n'
}

/// Lines joined with line breaks between them.
pub open spec fn join_lines(ls: Seq<Seq<char>>) -> Seq<char>
    decreases ls.len(),
{
    if ls.len() == 0 {
        seq![]
    } else if ls.len() == 1 {
        ls[0]
    } else {
        join_lines(ls.drop_last()) + seq!['\n'] + ls.last()
    }
}

/// The name each line of an approval's signed text starts with, `=` included.
pub open spec fn approval_label(k: int) -> Seq<char> {
    if k == 0 {
        "approval_version="@
    } else if k == 1 {
        "approval_id="@
    } else if k == 2 {
        "issuer_id="@
    } else if k == 3 {
        "approver_identity="@
    } else if k == 4 {
        "session_id="@
    } else if k == 5 {
        "manifest_hash="@
    } else if k == 6 {
        "invocation_hash="@
    } else if k == 7 {
        "capability="@
    } else if k == 8 {
        "ticket_reference="@
    } else if k == 9 {
        "issued_at="@
    } else {
        "expires_at="@
    }
}

/// The value on each line of an approval's signed text.
pub open spec fn approval_value(p: HumanApprovalProofView, k: int) -> Seq<char> {
    if k == 0 {
        decimal(p.approval_version as nat)
    } else if k == 1 {
        p.approval_id
    } else if k == 2 {
        p.issuer_id
    } else if k == 3 {
        p.approver_identity
    } else if k == 4 {
        p.session_id
    } else if k == 5 {
        p.expected_manifest_hash
    } else if k == 6 {
        p.expected_invocation_hash
    } else if k == 7 {
        capability_wire_name(p.capability)
    } else if k == 8 {
        p.ticket_reference
    } else if k == 9 {
        decimal(p.issued_at as nat)
    } else {
        decimal(p.expires_at as nat)
    }
}

/// The `name=value` lines of an approval's signed text.
pub open spec fn approval_lines(p: HumanApprovalProofView) -> Seq<Seq<char>> {
    Seq::new(11, |k: int| approval_label(k) + approval_value(p, k))
}

/// The separator before line `k` as the text writes it: a line break and the name.
spec fn line_opening(k: int) -> Seq<char> {
    if k == 0 {
        "\napproval_version="@
    } else if k == 1 {
        "\napproval_id="@
    } else if k == 2 {
        "\nissuer_id="@
    } else if k == 3 {
        "\napprover_identity="@
    } else if k == 4 {
        "\nsession_id="@
    } else if k == 5 {
        "\nmanifest_hash="@
    } else if k == 6 {
        "\ninvocation_hash="@
    } else if k == 7 {
        "\ncapability="@
    } else if k == 8 {
        "\nticket_reference="@
    } else if k == 9 {
        "\nissued_at="@
    } else {
        "\nexpires_at="@
    }
}

proof fn lemma_line_opening(k: int)
    requires
        1 <= k < 11,
    ensures
        line_opening(k) == seq!['\n'] + approval_label(k),
{
    if k == 1 {
        lemma_opening_approval_id();
    } else if k == 2 {
        lemma_opening_issuer_id();
    } else if k == 3 {
        lemma_opening_approver_identity();
    } else if k == 4 {
        lemma_opening_session_id();
    } else if k == 5 {
        lemma_opening_manifest_hash();
    } else if k == 6 {
        lemma_opening_invocation_hash();
    } else if k == 7 {
        lemma_opening_capability();
    } else if k == 8 {
        lemma_opening_ticket_reference();
    } else if k == 9 {
        lemma_opening_issued_at();
    } else if k == 10 {
        lemma_opening_expires_at();
    }
}

proof fn lemma_opening_approval_id()
    ensures
        "\napproval_id="@ == seq!['\n'] + "approval_id="@,
{
    reveal_strlit("\napproval_id=");
    reveal_strlit("approval_id=");
    assert("\napproval_id="@ =~= seq!['\n'] + "approval_id="@);
}

proof fn lemma_opening_issuer_id()
    ensures
        "\nissuer_id="@ == seq!['\n'] + "issuer_id="@,
{
    reveal_strlit("\nissuer_id=");
    reveal_strlit("issuer_id=");
    assert("\nissuer_id="@ =~= seq!['\n'] + "issuer_id="@);
}

proof fn lemma_opening_approver_identity()
    ensures
        "\napprover_identity="@ == seq!['\n'] + "approver_identity="@,
{
    reveal_strlit("\napprover_identity=");
    reveal_strlit("approver_identity=");
    assert("\napprover_identity="@ =~= seq!['\n'] + "approver_identity="@);
}

proof fn lemma_opening_session_id()
    ensures
        "\nsession_id="@ == seq!['\n'] + "session_id="@,
{
    reveal_strlit("\nsession_id=");
    reveal_strlit("session_id=");
    assert("\nsession_id="@ =~= seq!['\n'] + "session_id="@);
}

proof fn lemma_opening_manifest_hash()
    ensures
        "\nmanifest_hash="@ == seq!['\n'] + "manifest_hash="@,
{
    reveal_strlit("\nmanifest_hash=");
    reveal_strlit("manifest_hash=");
    assert("\nmanifest_hash="@ =~= seq!['\n'] + "manifest_hash="@);
}

proof fn lemma_opening_invocation_hash()
    ensures
        "\ninvocation_hash="@ == seq!['\n'] + "invocation_hash="@,
{
    reveal_strlit("\ninvocation_hash=");
    reveal_strlit("invocation_hash=");
    assert("\ninvocation_hash="@ =~= seq!['\n'] + "invocation_hash="@);
}

proof fn lemma_opening_capability()
    ensures
        "\ncapability="@ == seq!['\n'] + "capability="@,
{
    reveal_strlit("\ncapability=");
    reveal_strlit("capability=");
    assert("\ncapability="@ =~= seq!['\n'] + "capability="@);
}

proof fn lemma_opening_ticket_reference()
    ensures
        "\nticket_reference="@ == seq!['\n'] + "ticket_reference="@,
{
    reveal_strlit("\nticket_reference=");
    reveal_strlit("ticket_reference=");
    assert("\nticket_reference="@ =~= seq!['\n'] + "ticket_reference="@);
}

proof fn lemma_opening_issued_at()
    ensures
        "\nissued_at="@ == seq!['\n'] + "issued_at="@,
{
    reveal_strlit("\nissued_at=");
    reveal_strlit("issued_at=");
    assert("\nissued_at="@ =~= seq!['\n'] + "issued_at="@);
}

proof fn lemma_opening_expires_at()
    ensures
        "\nexpires_at="@ == seq!['\n'] + "expires_at="@,
{
    reveal_strlit("\nexpires_at=");
    reveal_strlit("expires_at=");
    assert("\nexpires_at="@ =~= seq!['\n'] + "expires_at="@);
}

/// The first `k` lines of the signed text, as the text builds them.
spec fn canonical_prefix(p: HumanApprovalProofView, k: nat) -> Seq<char>
    decreases k,
{
    if k <= 1 {
        approval_label(0) + approval_value(p, 0)
    } else {
        canonical_prefix(p, (k - 1) as nat) + line_opening(k - 1) + approval_value(p, k - 1)
    }
}

proof fn lemma_message_is_lines(p: HumanApprovalProofView)
    ensures
        canonical_approval_message(p) == join_lines(approval_lines(p)),
{
    reveal_with_fuel(canonical_prefix, 12);
    assert(canonical_approval_message(p) == canonical_prefix(p, 11));
    lemma_prefix_lines(p, 11);
    assert(approval_lines(p).take(11) =~= approval_lines(p));
}

proof fn lemma_prefix_lines(p: HumanApprovalProofView, k: nat)
    requires
        1 <= k <= 11,
    ensures
        join_lines(approval_lines(p).take(k as int)) == canonical_prefix(p, k),
    decreases k,
{
    let ls = approval_lines(p);
    if k == 1 {
        assert(ls.take(1) =~= seq![ls[0]]);
    } else {
        lemma_prefix_lines(p, (k - 1) as nat);
        lemma_line_opening(k - 1);
        assert(ls.take(k as int).drop_last() =~= ls.take(k - 1));
        assert(ls.take(k as int).last() == ls[k - 1]);
        assert(canonical_prefix(p, k) =~= canonical_prefix(p, (k - 1) as nat) + seq!['\n'] + ls[k
            - 1]);
    }
}

proof fn lemma_split_last_line(x1: Seq<char>, y1: Seq<char>, x2: Seq<char>, y2: Seq<char>)
    requires
        x1 + seq!['\n'] + y1 == x2 + seq!['\n'] + y2,
        no_line_break(y1),
        no_line_break(y2),
    ensures
        x1 == x2,
        y1 == y2,
{
    let t = x1 + seq!['\n'] + y1;
    let u = x2 + seq!['\n'] + y2;
    let a1 = x1 + seq!['\n'];
    let a2 = x2 + seq!['\n'];
    assert(a1.len() == x1.len() + 1 && a2.len() == x2.len() + 1);
    assert(a1[x1.len() as int] == '\n');
    assert(a2[x2.len() as int] == '\n');
    if y1.len() < y2.len() {
        let i = x1.len() as int;
        assert(t.len() == u.len());
        assert(t.len() == a1.len() + y1.len() && u.len() == a2.len() + y2.len());
        assert(a2.len() <= i < u.len());
        assert(t[i] == a1[i]);
        assert(u[i] == y2[i - a2.len()]);
        assert(y2[i - a2.len()] != '\n');
    } else if y2.len() < y1.len() {
        let i = x2.len() as int;
        assert(t.len() == u.len());
        assert(t.len() == a1.len() + y1.len() && u.len() == a2.len() + y2.len());
        assert(a1.len() <= i < t.len());
        assert(u[i] == a2[i]);
        assert(t[i] == y1[i - a1.len()]);
        assert(y1[i - a1.len()] != '\n');
    }
    assert(y1.len() == y2.len());
    assert(t.len() == u.len());
    assert(t.len() == a1.len() + y1.len() && u.len() == a2.len() + y2.len());
    assert(x1.len() == x2.len());
    assert(x1 =~= t.subrange(0, x1.len() as int));
    assert(x2 =~= u.subrange(0, x2.len() as int));
    assert(y1 =~= t.subrange(x1.len() as int + 1, t.len() as int));
    assert(y2 =~= u.subrange(x2.len() as int + 1, u.len() as int));
}

proof fn lemma_join_lines_injective(a: Seq<Seq<char>>, b: Seq<Seq<char>>)
    requires
        a.len() == b.len(),
        forall|i: int| 0 <= i < a.len() ==> no_line_break(#[trigger] a[i]),
        forall|i: int| 0 <= i < b.len() ==> no_line_break(#[trigger] b[i]),
        join_lines(a) == join_lines(b),
    ensures
        a == b,
    decreases a.len(),
{
    if a.len() == 1 {
        assert(a =~= b);
    } else if a.len() > 1 {
        assert(no_line_break(a[a.len() - 1]));
        assert(no_line_break(b[b.len() - 1]));
        lemma_split_last_line(join_lines(a.drop_last()), a.last(), join_lines(b.drop_last()), b.last());
        lemma_join_lines_injective(a.drop_last(), b.drop_last());
        assert(a =~= a.drop_last().push(a.last()));
        assert(b =~= b.drop_last().push(b.last()));
    } else {
        assert(a =~= b);
    }
}

proof fn lemma_no_line_break_append(a: Seq<char>, b: Seq<char>)
    requires
        no_line_break(a),
        no_line_break(b),
    ensures
        no_line_break(a + b),
{
    assert forall|i: int| 0 <= i < (a + b).len() implies #[trigger] (a + b)[i] != '\n' by {
        if i < a.len() {
            assert((a + b)[i] == a[i]);
        } else {
            assert((a + b)[i] == b[i - a.len()]);
        }
    }
}

proof fn lemma_label_prefix(l: Seq<char>, v1: Seq<char>, v2: Seq<char>)
    requires
        l + v1 == l + v2,
    ensures
        v1 == v2,
{
    assert(v1 =~= (l + v1).subrange(l.len() as int, (l + v1).len() as int));
    assert(v2 =~= (l + v2).subrange(l.len() as int, (l + v2).len() as int));
}

proof fn lemma_alphabet_no_line_break(s: Seq<char>, a: IdentifierAlphabet)
    requires
        all_in_alphabet(s, a),
    ensures
        no_line_break(s),
{
    assert forall|i: int| 0 <= i < s.len() implies #[trigger] s[i] != '\n' by {
        assert(alphabet_allows(a, s[i]));
    }
}

proof fn lemma_label_approval_version_plain()
    ensures
        no_line_break("approval_version="@),
{
    reveal_strlit("approval_version=");
}

proof fn lemma_label_approval_id_plain()
    ensures
        no_line_break("approval_id="@),
{
    reveal_strlit("approval_id=");
}

proof fn lemma_label_issuer_id_plain()
    ensures
        no_line_break("issuer_id="@),
{
    reveal_strlit("issuer_id=");
}

proof fn lemma_label_approver_identity_plain()
    ensures
        no_line_break("approver_identity="@),
{
    reveal_strlit("approver_identity=");
}

proof fn lemma_label_session_id_plain()
    ensures
        no_line_break("session_id="@),
{
    reveal_strlit("session_id=");
}

proof fn lemma_label_manifest_hash_plain()
    ensures
        no_line_break("manifest_hash="@),
{
    reveal_strlit("manifest_hash=");
}

proof fn lemma_label_invocation_hash_plain()
    ensures
        no_line_break("invocation_hash="@),
{
    reveal_strlit("invocation_hash=");
}

proof fn lemma_label_capability_plain()
    ensures
        no_line_break("capability="@),
{
    reveal_strlit("capability=");
}

proof fn lemma_label_ticket_reference_plain()
    ensures
        no_line_break("ticket_reference="@),
{
    reveal_strlit("ticket_reference=");
}

proof fn lemma_label_issued_at_plain()
    ensures
        no_line_break("issued_at="@),
{
    reveal_strlit("issued_at=");
}

proof fn lemma_label_expires_at_plain()
    ensures
        no_line_break("expires_at="@),
{
    reveal_strlit("expires_at=");
}

proof fn lemma_label_no_line_break(k: int)
    requires
        0 <= k < 11,
    ensures
        no_line_break(approval_label(k)),
{
    if k == 0 {
        lemma_label_approval_version_plain();
    } else if k == 1 {
        lemma_label_approval_id_plain();
    } else if k == 2 {
        lemma_label_issuer_id_plain();
    } else if k == 3 {
        lemma_label_approver_identity_plain();
    } else if k == 4 {
        lemma_label_session_id_plain();
    } else if k == 5 {
        lemma_label_manifest_hash_plain();
    } else if k == 6 {
        lemma_label_invocation_hash_plain();
    } else if k == 7 {
        lemma_label_capability_plain();
    } else if k == 8 {
        lemma_label_ticket_reference_plain();
    } else if k == 9 {
        lemma_label_issued_at_plain();
    } else if k == 10 {
        lemma_label_expires_at_plain();
    }
}

proof fn lemma_capability_names_plain(c: ToolCapability)
    ensures
        no_line_break(capability_wire_name(c)),
{
    reveal_strlit("read_file");
    reveal_strlit("write_file");
    reveal_strlit("execute_cargo_tests");
}

proof fn lemma_approval_lines_plain(p: HumanApprovalProofView)
    requires
        approval_view_valid(p),
    ensures
        forall|i: int| 0 <= i < approval_lines(p).len() ==> no_line_break(#[trigger] approval_lines(p)[i]),
{
    lemma_decimal_no_line_break(p.approval_version as nat);
    lemma_decimal_no_line_break(p.issued_at as nat);
    lemma_decimal_no_line_break(p.expires_at as nat);
    lemma_alphabet_no_line_break(p.approval_id, IdentifierAlphabet::Plain);
    lemma_alphabet_no_line_break(p.issuer_id, IdentifierAlphabet::Plain);
    lemma_alphabet_no_line_break(p.approver_identity, IdentifierAlphabet::Actor);
    lemma_alphabet_no_line_break(p.session_id, IdentifierAlphabet::Plain);
    lemma_alphabet_no_line_break(p.expected_manifest_hash, IdentifierAlphabet::Hex);
    lemma_alphabet_no_line_break(p.expected_invocation_hash, IdentifierAlphabet::Hex);
    lemma_alphabet_no_line_break(p.ticket_reference, IdentifierAlphabet::Ticket);
    lemma_capability_names_plain(p.capability);
    assert forall|i: int| 0 <= i < approval_lines(p).len() implies no_line_break(
        #[trigger] approval_lines(p)[i],
    ) by {
        lemma_label_no_line_break(i);
        lemma_no_line_break_append(approval_label(i), approval_value(p, i));
    }
}

/// Law: the signed text names the approval. Two approvals whose fields are
/// well formed and whose signed texts are equal agree on every field but the
/// signature: version, approval, issuer, approver, session, manifest and
/// invocation digests, capability, ticket, and validity window. So a
/// signature over one approval's text cannot stand for another.
pub proof fn lemma_signed_text_determines_approval(p1: HumanApprovalProofView, p2: HumanApprovalProofView)
    requires
        approval_view_valid(p1),
        approval_view_valid(p2),
        canonical_approval_message(p1) == canonical_approval_message(p2),
    ensures
        p1.approval_version == p2.approval_version,
        p1.approval_id == p2.approval_id,
        p1.issuer_id == p2.issuer_id,
        p1.approver_identity == p2.approver_identity,
        p1.session_id == p2.session_id,
        p1.expected_manifest_hash == p2.expected_manifest_hash,
        p1.expected_invocation_hash == p2.expected_invocation_hash,
        p1.capability == p2.capability,
        p1.ticket_reference == p2.ticket_reference,
        p1.issued_at == p2.issued_at,
        p1.expires_at == p2.expires_at,
{
    lemma_message_is_lines(p1);
    lemma_message_is_lines(p2);
    lemma_approval_lines_plain(p1);
    lemma_approval_lines_plain(p2);
    let a = approval_lines(p1);
    let b = approval_lines(p2);
    lemma_join_lines_injective(a, b);
    assert forall|k: int| 0 <= k < 11 implies approval_value(p1, k) == approval_value(p2, k) by {
        assert(a[k] == b[k]);
        lemma_label_prefix(approval_label(k), approval_value(p1, k), approval_value(p2, k));
    }
    assert(approval_value(p1, 0) == approval_value(p2, 0));
    assert(approval_value(p1, 7) == approval_value(p2, 7));
    assert(approval_value(p1, 9) == approval_value(p2, 9));
    assert(approval_value(p1, 10) == approval_value(p2, 10));
    lemma_decimal_injective(p1.approval_version as nat, p2.approval_version as nat);
    lemma_decimal_injective(p1.issued_at as nat, p2.issued_at as nat);
    lemma_decimal_injective(p1.expires_at as nat, p2.expires_at as nat);
    lemma_wire_name_injective(p1.capability, p2.capability);
    assert(approval_value(p1, 1) == approval_value(p2, 1));
    assert(approval_value(p1, 2) == approval_value(p2, 2));
    assert(approval_value(p1, 3) == approval_value(p2, 3));
    assert(approval_value(p1, 4) == approval_value(p2, 4));
    assert(approval_value(p1, 5) == approval_value(p2, 5));
    assert(approval_value(p1, 6) == approval_value(p2, 6));
    assert(approval_value(p1, 8) == approval_value(p2, 8));
}

} // verus!
