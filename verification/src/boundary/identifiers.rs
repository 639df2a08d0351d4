//! Validated identifier wrappers. Each wrapper can only be built from a
//! string that passes its format check, and keeps that string unchanged.

use vstd::prelude::*;
use vstd::std_specs::iter::IteratorSpec;
use vstd::string::StrSliceExecFns;
use vstd::utf8::{encode_utf8, is_ascii_chars, is_ascii_chars_encode_utf8};
use crate::boundary::errors::{BoundaryError, BoundaryErrorView};

verus! {

pub open spec fn is_ascii_alphanumeric(c: char) -> bool {
    ('0' <= c <= '9') || ('a' <= c <= 'z') || ('A' <= c <= 'Z')
}

pub open spec fn is_ascii_hexdigit(c: char) -> bool {
    ('0' <= c <= '9') || ('a' <= c <= 'f') || ('A' <= c <= 'F')
}

/// The character sets that identifiers are drawn from.
#[derive(Clone, Copy, PartialEq, Eq, Debug)]
pub enum IdentifierAlphabet {
    /// Letters, digits, `_` and `-`.
    Plain,
    /// Letters, digits, `@`, `.`, `_` and `-`.
    Actor,
    /// Letters, digits, `_`, `-`, `:` and `/`.
    Ticket,
    /// Hexadecimal digits of either case.
    Hex,
}

pub open spec fn alphabet_allows(a: IdentifierAlphabet, c: char) -> bool {
    match a {
        IdentifierAlphabet::Plain => is_ascii_alphanumeric(c) || c == '_' || c == '-',
        IdentifierAlphabet::Actor => is_ascii_alphanumeric(c) || c == '@' || c == '.' || c == '_'
            || c == '-',
        IdentifierAlphabet::Ticket => is_ascii_alphanumeric(c) || c == '_' || c == '-' || c == ':'
            || c == '/',
        IdentifierAlphabet::Hex => is_ascii_hexdigit(c),
    }
}

pub open spec fn all_in_alphabet(s: Seq<char>, a: IdentifierAlphabet) -> bool {
    forall|i: int| 0 <= i < s.len() ==> alphabet_allows(a, #[trigger] s[i])
}

/// A non-empty identifier of at most `max` characters, all from `a`.
pub open spec fn bounded_id_valid(s: Seq<char>, max: nat, a: IdentifierAlphabet) -> bool {
    &&& s.len() > 0
    &&& s.len() <= max
    &&& all_in_alphabet(s, a)
}

/// Exactly `len` hexadecimal digits.
pub open spec fn exact_hex_valid(s: Seq<char>, len: nat) -> bool {
    &&& s.len() == len
    &&& all_in_alphabet(s, IdentifierAlphabet::Hex)
}

pub proof fn lemma_alphabet_is_ascii(s: Seq<char>, a: IdentifierAlphabet)
    requires
        all_in_alphabet(s, a),
    ensures
        is_ascii_chars(s),
        encode_utf8(s).len() == s.len(),
{
    assert(is_ascii_chars(s)) by {
        assert forall|i: int| 0 <= i < s.len() implies '\0' <= #[trigger] s[i] <= '\u{7f}' by {
            assert(alphabet_allows(a, s[i]));
        }
    }
    is_ascii_chars_encode_utf8(s);
}

fn char_allowed(a: IdentifierAlphabet, c: char) -> (r: bool)
    ensures
        r == alphabet_allows(a, c),
{
    let alnum = ('0' <= c && c <= '9') || ('a' <= c && c <= 'z') || ('A' <= c && c <= 'Z');
    match a {
        IdentifierAlphabet::Plain => alnum || c == '_' || c == '-',
        IdentifierAlphabet::Actor => alnum || c == '@' || c == '.' || c == '_' || c == '-',
        IdentifierAlphabet::Ticket => alnum || c == '_' || c == '-' || c == ':' || c == '/',
        IdentifierAlphabet::Hex => ('0' <= c && c <= '9') || ('a' <= c && c <= 'f') || ('A' <= c
            && c <= 'F'),
    }
}

/// Whether every character of `s` is in alphabet `a`.
pub fn all_chars_in_alphabet(s: &str, a: IdentifierAlphabet) -> (r: bool)
    ensures
        r == all_in_alphabet(s@, a),
{
    let mut it = s.chars();
    let ghost mut done: Seq<char> = Seq::empty();
    loop
        invariant
            it.obeys_prophetic_iter_laws(),
            it.decrease() is Some,
            s@ == done + it.remaining(),
            all_in_alphabet(done, a),
        ensures
            all_in_alphabet(s@, a),
        decreases it.decrease()->0,
    {
        match it.next() {
            Some(c) => {
                if !char_allowed(a, c) {
                    assert(s@[done.len() as int] == c);
                    return false;
                }
                proof {
                    let nd = done.push(c);
                    assert(s@ =~= nd + it.remaining());
                    done = nd;
                }
            },
            None => {
                assert(done =~= s@);
                break;
            },
        }
    }
    true
}

/// Checks the bounded-identifier format: non-empty, at most `max` characters, all in `a`.
/// (The characters of a valid identifier are ASCII, so counting characters and
/// counting bytes agree on every string this accepts.)
pub fn check_bounded_id(raw: &str, max: usize, a: IdentifierAlphabet) -> (r: bool)
    ensures
        r == bounded_id_valid(raw@, max as nat, a),
{
    let n = raw.unicode_len();
    if n == 0 || n > max {
        return false;
    }
    all_chars_in_alphabet(raw, a)
}

/// Checks the exact-hex format: exactly `len` characters, all hexadecimal digits.
pub fn check_exact_hex(raw: &str, len: usize) -> (r: bool)
    ensures
        r == exact_hex_valid(raw@, len as nat),
{
    if raw.unicode_len() != len {
        return false;
    }
    all_chars_in_alphabet(raw, IdentifierAlphabet::Hex)
}

/// Identifies a scope manifest.
#[derive(Debug, Hash)]
pub struct ManifestId(String);

impl View for ManifestId {
    type V = Seq<char>;

    closed spec fn view(&self) -> Seq<char> {
        self.0@
    }
}

impl ManifestId {
    /// The format every `ManifestId` satisfies.
    #[verifier::type_invariant]
    pub open spec fn well_formed(self) -> bool {
        bounded_id_valid(self@, 64, IdentifierAlphabet::Plain)
    }

    /// Accepts `raw` exactly when it satisfies the format; keeps it unchanged.
    pub fn try_from(raw: String) -> (r: Result<Self, BoundaryError>)
        ensures
            r is Ok <==> bounded_id_valid(raw@, 64, IdentifierAlphabet::Plain),
            r matches Ok(id) ==> id@ == raw@,
            r matches Err(e) ==> e@ == BoundaryErrorView::InvalidIdentifier("Invalid ManifestId format"@),
    {
        if check_bounded_id(raw.as_str(), 64, IdentifierAlphabet::Plain) {
            Ok(ManifestId(raw))
        } else {
            Err(BoundaryError::InvalidIdentifier("Invalid ManifestId format".to_owned()))
        }
    }

    pub fn as_str(&self) -> (r: &str)
        ensures
            r@ == self@,
            bounded_id_valid(self@, 64, IdentifierAlphabet::Plain),
    {
        proof {
            use_type_invariant(self);
        }
        self.0.as_str()
    }
}

impl Clone for ManifestId {
    fn clone(&self) -> (r: Self)
        ensures
            r@ == self@,
    {
        proof {
            use_type_invariant(self);
        }
        ManifestId(self.0.clone())
    }
}

impl PartialEq for ManifestId {
    fn eq(&self, other: &Self) -> (r: bool) {
        self.0 == other.0
    }
}

impl vstd::std_specs::cmp::PartialEqSpecImpl for ManifestId {
    open spec fn obeys_eq_spec() -> bool {
        true
    }

    open spec fn eq_spec(&self, other: &Self) -> bool {
        self@ == other@
    }
}

impl Eq for ManifestId {

}

/// Identifies an agent session.
#[derive(Debug, Hash)]
pub struct SessionId(String);

impl View for SessionId {
    type V = Seq<char>;

    closed spec fn view(&self) -> Seq<char> {
        self.0@
    }
}

impl SessionId {
    /// The format every `SessionId` satisfies.
    #[verifier::type_invariant]
    pub open spec fn well_formed(self) -> bool {
        bounded_id_valid(self@, 64, IdentifierAlphabet::Plain)
    }

    /// Accepts `raw` exactly when it satisfies the format; keeps it unchanged.
    pub fn try_from(raw: String) -> (r: Result<Self, BoundaryError>)
        ensures
            r is Ok <==> bounded_id_valid(raw@, 64, IdentifierAlphabet::Plain),
            r matches Ok(id) ==> id@ == raw@,
            r matches Err(e) ==> e@ == BoundaryErrorView::InvalidIdentifier("Invalid SessionId format"@),
    {
        if check_bounded_id(raw.as_str(), 64, IdentifierAlphabet::Plain) {
            Ok(SessionId(raw))
        } else {
            Err(BoundaryError::InvalidIdentifier("Invalid SessionId format".to_owned()))
        }
    }

    pub fn as_str(&self) -> (r: &str)
        ensures
            r@ == self@,
            bounded_id_valid(self@, 64, IdentifierAlphabet::Plain),
    {
        proof {
            use_type_invariant(self);
        }
        self.0.as_str()
    }
}

impl Clone for SessionId {
    fn clone(&self) -> (r: Self)
        ensures
            r@ == self@,
    {
        proof {
            use_type_invariant(self);
        }
        SessionId(self.0.clone())
    }
}

impl PartialEq for SessionId {
    fn eq(&self, other: &Self) -> (r: bool) {
        self.0 == other.0
    }
}

impl vstd::std_specs::cmp::PartialEqSpecImpl for SessionId {
    open spec fn obeys_eq_spec() -> bool {
        true
    }

    open spec fn eq_spec(&self, other: &Self) -> bool {
        self@ == other@
    }
}

impl Eq for SessionId {

}

/// Identifies one human approval.
#[derive(Debug, Hash)]
pub struct ApprovalId(String);

impl View for ApprovalId {
    type V = Seq<char>;

    closed spec fn view(&self) -> Seq<char> {
        self.0@
    }
}

impl ApprovalId {
    /// The format every `ApprovalId` satisfies.
    #[verifier::type_invariant]
    pub open spec fn well_formed(self) -> bool {
        bounded_id_valid(self@, 64, IdentifierAlphabet::Plain)
    }

    /// Accepts `raw` exactly when it satisfies the format; keeps it unchanged.
    pub fn try_from(raw: String) -> (r: Result<Self, BoundaryError>)
        ensures
            r is Ok <==> bounded_id_valid(raw@, 64, IdentifierAlphabet::Plain),
            r matches Ok(id) ==> id@ == raw@,
            r matches Err(e) ==> e@ == BoundaryErrorView::InvalidIdentifier("Invalid ApprovalId format"@),
    {
        if check_bounded_id(raw.as_str(), 64, IdentifierAlphabet::Plain) {
            Ok(ApprovalId(raw))
        } else {
            Err(BoundaryError::InvalidIdentifier("Invalid ApprovalId format".to_owned()))
        }
    }

    pub fn as_str(&self) -> (r: &str)
        ensures
            r@ == self@,
            bounded_id_valid(self@, 64, IdentifierAlphabet::Plain),
    {
        proof {
            use_type_invariant(self);
        }
        self.0.as_str()
    }
}

impl Clone for ApprovalId {
    fn clone(&self) -> (r: Self)
        ensures
            r@ == self@,
    {
        proof {
            use_type_invariant(self);
        }
        ApprovalId(self.0.clone())
    }
}

impl PartialEq for ApprovalId {
    fn eq(&self, other: &Self) -> (r: bool) {
        self.0 == other.0
    }
}

impl vstd::std_specs::cmp::PartialEqSpecImpl for ApprovalId {
    open spec fn obeys_eq_spec() -> bool {
        true
    }

    open spec fn eq_spec(&self, other: &Self) -> bool {
        self@ == other@
    }
}

impl Eq for ApprovalId {

}

/// Identifies the system that issued an approval.
#[derive(Debug, Hash)]
pub struct ApprovalIssuerId(String);

impl View for ApprovalIssuerId {
    type V = Seq<char>;

    closed spec fn view(&self) -> Seq<char> {
        self.0@
    }
}

impl ApprovalIssuerId {
    /// The format every `ApprovalIssuerId` satisfies.
    #[verifier::type_invariant]
    pub open spec fn well_formed(self) -> bool {
        bounded_id_valid(self@, 64, IdentifierAlphabet::Plain)
    }

    /// Accepts `raw` exactly when it satisfies the format; keeps it unchanged.
    pub fn try_from(raw: String) -> (r: Result<Self, BoundaryError>)
        ensures
            r is Ok <==> bounded_id_valid(raw@, 64, IdentifierAlphabet::Plain),
            r matches Ok(id) ==> id@ == raw@,
            r matches Err(e) ==> e@ == BoundaryErrorView::InvalidIdentifier("Invalid ApprovalIssuerId format"@),
    {
        if check_bounded_id(raw.as_str(), 64, IdentifierAlphabet::Plain) {
            Ok(ApprovalIssuerId(raw))
        } else {
            Err(BoundaryError::InvalidIdentifier("Invalid ApprovalIssuerId format".to_owned()))
        }
    }

    pub fn as_str(&self) -> (r: &str)
        ensures
            r@ == self@,
            bounded_id_valid(self@, 64, IdentifierAlphabet::Plain),
    {
        proof {
            use_type_invariant(self);
        }
        self.0.as_str()
    }
}

impl Clone for ApprovalIssuerId {
    fn clone(&self) -> (r: Self)
        ensures
            r@ == self@,
    {
        proof {
            use_type_invariant(self);
        }
        ApprovalIssuerId(self.0.clone())
    }
}

impl PartialEq for ApprovalIssuerId {
    fn eq(&self, other: &Self) -> (r: bool) {
        self.0 == other.0
    }
}

impl vstd::std_specs::cmp::PartialEqSpecImpl for ApprovalIssuerId {
    open spec fn obeys_eq_spec() -> bool {
        true
    }

    open spec fn eq_spec(&self, other: &Self) -> bool {
        self@ == other@
    }
}

impl Eq for ApprovalIssuerId {

}

/// Identifies the human who approved.
#[derive(Debug, Hash)]
pub struct ActorId(String);

impl View for ActorId {
    type V = Seq<char>;

    closed spec fn view(&self) -> Seq<char> {
        self.0@
    }
}

impl ActorId {
    /// The format every `ActorId` satisfies.
    #[verifier::type_invariant]
    pub open spec fn well_formed(self) -> bool {
        bounded_id_valid(self@, 128, IdentifierAlphabet::Actor)
    }

    /// Accepts `raw` exactly when it satisfies the format; keeps it unchanged.
    pub fn try_from(raw: String) -> (r: Result<Self, BoundaryError>)
        ensures
            r is Ok <==> bounded_id_valid(raw@, 128, IdentifierAlphabet::Actor),
            r matches Ok(id) ==> id@ == raw@,
            r matches Err(e) ==> e@ == BoundaryErrorView::InvalidIdentifier("Invalid ActorId format"@),
    {
        if check_bounded_id(raw.as_str(), 128, IdentifierAlphabet::Actor) {
            Ok(ActorId(raw))
        } else {
            Err(BoundaryError::InvalidIdentifier("Invalid ActorId format".to_owned()))
        }
    }

    pub fn as_str(&self) -> (r: &str)
        ensures
            r@ == self@,
            bounded_id_valid(self@, 128, IdentifierAlphabet::Actor),
    {
        proof {
            use_type_invariant(self);
        }
        self.0.as_str()
    }
}

impl Clone for ActorId {
    fn clone(&self) -> (r: Self)
        ensures
            r@ == self@,
    {
        proof {
            use_type_invariant(self);
        }
        ActorId(self.0.clone())
    }
}

impl PartialEq for ActorId {
    fn eq(&self, other: &Self) -> (r: bool) {
        self.0 == other.0
    }
}

impl vstd::std_specs::cmp::PartialEqSpecImpl for ActorId {
    open spec fn obeys_eq_spec() -> bool {
        true
    }

    open spec fn eq_spec(&self, other: &Self) -> bool {
        self@ == other@
    }
}

impl Eq for ActorId {

}

/// Refers to the change ticket an approval belongs to.
#[derive(Debug, Hash)]
pub struct TicketReference(String);

impl View for TicketReference {
    type V = Seq<char>;

    closed spec fn view(&self) -> Seq<char> {
        self.0@
    }
}

impl TicketReference {
    /// The format every `TicketReference` satisfies.
    #[verifier::type_invariant]
    pub open spec fn well_formed(self) -> bool {
        bounded_id_valid(self@, 128, IdentifierAlphabet::Ticket)
    }

    /// Accepts `raw` exactly when it satisfies the format; keeps it unchanged.
    pub fn try_from(raw: String) -> (r: Result<Self, BoundaryError>)
        ensures
            r is Ok <==> bounded_id_valid(raw@, 128, IdentifierAlphabet::Ticket),
            r matches Ok(id) ==> id@ == raw@,
            r matches Err(e) ==> e@ == BoundaryErrorView::InvalidIdentifier("Invalid TicketReference format"@),
    {
        if check_bounded_id(raw.as_str(), 128, IdentifierAlphabet::Ticket) {
            Ok(TicketReference(raw))
        } else {
            Err(BoundaryError::InvalidIdentifier("Invalid TicketReference format".to_owned()))
        }
    }

    pub fn as_str(&self) -> (r: &str)
        ensures
            r@ == self@,
            bounded_id_valid(self@, 128, IdentifierAlphabet::Ticket),
    {
        proof {
            use_type_invariant(self);
        }
        self.0.as_str()
    }
}

impl Clone for TicketReference {
    fn clone(&self) -> (r: Self)
        ensures
            r@ == self@,
    {
        proof {
            use_type_invariant(self);
        }
        TicketReference(self.0.clone())
    }
}

impl PartialEq for TicketReference {
    fn eq(&self, other: &Self) -> (r: bool) {
        self.0 == other.0
    }
}

impl vstd::std_specs::cmp::PartialEqSpecImpl for TicketReference {
    open spec fn obeys_eq_spec() -> bool {
        true
    }

    open spec fn eq_spec(&self, other: &Self) -> bool {
        self@ == other@
    }
}

impl Eq for TicketReference {

}

/// Hex digest of a manifest's canonical form.
#[derive(Debug, Hash)]
pub struct ManifestHash(String);

impl View for ManifestHash {
    type V = Seq<char>;

    closed spec fn view(&self) -> Seq<char> {
        self.0@
    }
}

impl ManifestHash {
    /// The format every `ManifestHash` satisfies.
    #[verifier::type_invariant]
    pub open spec fn well_formed(self) -> bool {
        exact_hex_valid(self@, 64)
    }

    /// Accepts `raw` exactly when it satisfies the format; keeps it unchanged.
    pub fn try_from(raw: String) -> (r: Result<Self, BoundaryError>)
        ensures
            r is Ok <==> exact_hex_valid(raw@, 64),
            r matches Ok(id) ==> id@ == raw@,
            r matches Err(e) ==> e@ == BoundaryErrorView::InvalidCryptographicFormat("ManifestHash must be exactly 64 hex characters"@),
    {
        if check_exact_hex(raw.as_str(), 64) {
            Ok(ManifestHash(raw))
        } else {
            Err(BoundaryError::InvalidCryptographicFormat("ManifestHash must be exactly 64 hex characters".to_owned()))
        }
    }

    pub fn as_str(&self) -> (r: &str)
        ensures
            r@ == self@,
            exact_hex_valid(self@, 64),
    {
        proof {
            use_type_invariant(self);
        }
        self.0.as_str()
    }
}

impl Clone for ManifestHash {
    fn clone(&self) -> (r: Self)
        ensures
            r@ == self@,
    {
        proof {
            use_type_invariant(self);
        }
        ManifestHash(self.0.clone())
    }
}

impl PartialEq for ManifestHash {
    fn eq(&self, other: &Self) -> (r: bool) {
        self.0 == other.0
    }
}

impl vstd::std_specs::cmp::PartialEqSpecImpl for ManifestHash {
    open spec fn obeys_eq_spec() -> bool {
        true
    }

    open spec fn eq_spec(&self, other: &Self) -> bool {
        self@ == other@
    }
}

impl Eq for ManifestHash {

}

/// Hex digest of a validated invocation's canonical identity.
#[derive(Debug, Hash)]
pub struct InvocationHash(String);

impl View for InvocationHash {
    type V = Seq<char>;

    closed spec fn view(&self) -> Seq<char> {
        self.0@
    }
}

impl InvocationHash {
    /// The format every `InvocationHash` satisfies.
    #[verifier::type_invariant]
    pub open spec fn well_formed(self) -> bool {
        exact_hex_valid(self@, 64)
    }

    /// Accepts `raw` exactly when it satisfies the format; keeps it unchanged.
    pub fn try_from(raw: String) -> (r: Result<Self, BoundaryError>)
        ensures
            r is Ok <==> exact_hex_valid(raw@, 64),
            r matches Ok(id) ==> id@ == raw@,
            r matches Err(e) ==> e@ == BoundaryErrorView::InvalidCryptographicFormat("InvocationHash must be exactly 64 hex characters"@),
    {
        if check_exact_hex(raw.as_str(), 64) {
            Ok(InvocationHash(raw))
        } else {
            Err(BoundaryError::InvalidCryptographicFormat("InvocationHash must be exactly 64 hex characters".to_owned()))
        }
    }

    pub fn as_str(&self) -> (r: &str)
        ensures
            r@ == self@,
            exact_hex_valid(self@, 64),
    {
        proof {
            use_type_invariant(self);
        }
        self.0.as_str()
    }
}

impl Clone for InvocationHash {
    fn clone(&self) -> (r: Self)
        ensures
            r@ == self@,
    {
        proof {
            use_type_invariant(self);
        }
        InvocationHash(self.0.clone())
    }
}

impl PartialEq for InvocationHash {
    fn eq(&self, other: &Self) -> (r: bool) {
        self.0 == other.0
    }
}

impl vstd::std_specs::cmp::PartialEqSpecImpl for InvocationHash {
    open spec fn obeys_eq_spec() -> bool {
        true
    }

    open spec fn eq_spec(&self, other: &Self) -> bool {
        self@ == other@
    }
}

impl Eq for InvocationHash {

}

/// Hex encoding of an Ed25519 signature.
#[derive(Debug, Hash)]
pub struct ApprovalSignature(String);

impl View for ApprovalSignature {
    type V = Seq<char>;

    closed spec fn view(&self) -> Seq<char> {
        self.0@
    }
}

impl ApprovalSignature {
    /// The format every `ApprovalSignature` satisfies.
    #[verifier::type_invariant]
    pub open spec fn well_formed(self) -> bool {
        exact_hex_valid(self@, 128)
    }

    /// Accepts `raw` exactly when it satisfies the format; keeps it unchanged.
    pub fn try_from(raw: String) -> (r: Result<Self, BoundaryError>)
        ensures
            r is Ok <==> exact_hex_valid(raw@, 128),
            r matches Ok(id) ==> id@ == raw@,
            r matches Err(e) ==> e@ == BoundaryErrorView::InvalidCryptographicFormat("ApprovalSignature must be exactly 128 hex characters"@),
    {
        if check_exact_hex(raw.as_str(), 128) {
            Ok(ApprovalSignature(raw))
        } else {
            Err(BoundaryError::InvalidCryptographicFormat("ApprovalSignature must be exactly 128 hex characters".to_owned()))
        }
    }

    pub fn as_str(&self) -> (r: &str)
        ensures
            r@ == self@,
            exact_hex_valid(self@, 128),
    {
        proof {
            use_type_invariant(self);
        }
        self.0.as_str()
    }
}

impl Clone for ApprovalSignature {
    fn clone(&self) -> (r: Self)
        ensures
            r@ == self@,
    {
        proof {
            use_type_invariant(self);
        }
        ApprovalSignature(self.0.clone())
    }
}

impl PartialEq for ApprovalSignature {
    fn eq(&self, other: &Self) -> (r: bool) {
        self.0 == other.0
    }
}

impl vstd::std_specs::cmp::PartialEqSpecImpl for ApprovalSignature {
    open spec fn obeys_eq_spec() -> bool {
        true
    }

    open spec fn eq_spec(&self, other: &Self) -> bool {
        self@ == other@
    }
}

impl Eq for ApprovalSignature {

}

} // verus!
