//! What a session may do: its capabilities, its path scopes, its environment,
//! and the canonical digest that human approvals are bound to.

use vstd::prelude::*;
use vstd::utf8::{encode_utf8, encode_utf8_decode_utf8};
use crate::boundary::crypto::{sha256, sha256_digest};
use crate::boundary::errors::BoundaryError;
use crate::boundary::identifiers::{exact_hex_valid, ManifestHash, ManifestId};
use crate::boundary::text::{
    decimal, hex_lower, join_with, json_list, json_string, json_string_array,
    lemma_decimal_injective, lemma_hex_lower_shape, lemma_join_with_front, lemma_join_with_step,
    lemma_json_string_array_injective, lemma_json_string_injective, lemma_strip_prefix, push_char,
    push_decimal, push_json_string, push_json_string_array, push_str, to_hex_lower,
};
use crate::boundary::types::{string_views, IsolatedPath};

verus! {

// ---------------------------------------------------------------- capabilities

/// The kinds of action a proposal can ask for.
#[derive(Debug, Clone, Copy, PartialEq, Eq, Structural, PartialOrd, Ord, Hash)]
pub enum ToolCapability {
    ReadFile,
    WriteFile,
    ExecuteCargoTests,
}

pub open spec fn capability_wire_name(c: ToolCapability) -> Seq<char> {
    match c {
        ToolCapability::ReadFile => "read_file"@,
        ToolCapability::WriteFile => "write_file"@,
        ToolCapability::ExecuteCargoTests => "execute_cargo_tests"@,
    }
}

/// Different capabilities have different wire names.
pub proof fn lemma_wire_name_injective(a: ToolCapability, b: ToolCapability)
    requires
        capability_wire_name(a) == capability_wire_name(b),
    ensures
        a == b,
{
    reveal_strlit("read_file");
    reveal_strlit("write_file");
    reveal_strlit("execute_cargo_tests");
    assert("read_file"@.len() == 9);
    assert("write_file"@.len() == 10);
    assert("execute_cargo_tests"@.len() == 19);
    assert(capability_wire_name(a).len() == capability_wire_name(b).len());
}

impl ToolCapability {
    /// The capability's name on the wire.
    pub fn wire_name(&self) -> (r: &'static str)
        ensures
            r@ == capability_wire_name(*self),
    {
        match self {
            ToolCapability::ReadFile => "read_file",
            ToolCapability::WriteFile => "write_file",
            ToolCapability::ExecuteCargoTests => "execute_cargo_tests",
        }
    }
}

// ---------------------------------------------------------------- environments

/// Where a session runs.
#[derive(Debug, Clone, Copy, PartialEq, Eq, Structural)]
pub enum Environment {
    Development,
    Staging,
    Production,
}

pub open spec fn environment_wire_name(e: Environment) -> Seq<char> {
    match e {
        Environment::Development => "development"@,
        Environment::Staging => "staging"@,
        Environment::Production => "production"@,
    }
}

impl Environment {
    /// The environment's name on the wire.
    pub fn wire_name(&self) -> (r: &'static str)
        ensures
            r@ == environment_wire_name(*self),
    {
        match self {
            Environment::Development => "development",
            Environment::Staging => "staging",
            Environment::Production => "production",
        }
    }
}

// ---------------------------------------------------------------- path scopes

/// A grant over workspace paths: one exact file, or everything strictly below a directory.
#[derive(Debug)]
pub enum PathScope {
    ExactFile(IsolatedPath),
    DirectoryTree(IsolatedPath),
}

/// A path scope with its path taken as components.
pub enum PathScopeView {
    ExactFile(Seq<Seq<char>>),
    DirectoryTree(Seq<Seq<char>>),
}

impl View for PathScope {
    type V = PathScopeView;

    open spec fn view(&self) -> PathScopeView {
        match self {
            PathScope::ExactFile(p) => PathScopeView::ExactFile(p@),
            PathScope::DirectoryTree(p) => PathScopeView::DirectoryTree(p@),
        }
    }
}

/// Whether `scope` covers `requested`: an exact-file scope covers only its own
/// path; a directory-tree scope covers the paths strictly below its directory,
/// not the directory itself.
pub open spec fn scope_authorizes(scope: PathScopeView, requested: Seq<Seq<char>>) -> bool {
    match scope {
        PathScopeView::ExactFile(allowed) => allowed == requested,
        PathScopeView::DirectoryTree(dir) => requested != dir && dir.is_prefix_of(requested),
    }
}

impl PathScope {
    pub fn authorizes(&self, requested: &IsolatedPath) -> (r: bool)
        ensures
            r == scope_authorizes(self@, requested@),
    {
        match self {
            PathScope::ExactFile(allowed) => allowed.same_as(requested),
            PathScope::DirectoryTree(dir) => !requested.same_as(dir) && dir.is_prefix_of(requested),
        }
    }
}

impl Clone for PathScope {
    fn clone(&self) -> (r: Self)
        ensures
            r@ == self@,
    {
        match self {
            PathScope::ExactFile(p) => PathScope::ExactFile(p.clone()),
            PathScope::DirectoryTree(p) => PathScope::DirectoryTree(p.clone()),
        }
    }
}

/// Whether some scope in `scopes` covers `requested`.
pub open spec fn some_scope_authorizes(scopes: Set<PathScopeView>, requested: Seq<Seq<char>>) -> bool {
    exists|s: PathScopeView| scopes.contains(s) && scope_authorizes(s, requested)
}

/// The set of scopes a list holds.
pub open spec fn scope_set(scopes: Seq<PathScope>) -> Set<PathScopeView> {
    scopes.map_values(|s: PathScope| s@).to_set()
}

/// Whether any scope in the list covers `requested`.
pub fn any_scope_authorizes(scopes: &Vec<PathScope>, requested: &IsolatedPath) -> (r: bool)
    ensures
        r == some_scope_authorizes(scope_set(scopes@), requested@),
{
    let ghost views = scopes@.map_values(|s: PathScope| s@);
    let mut i: usize = 0;
    while i < scopes.len()
        invariant
            i <= scopes@.len(),
            views == scopes@.map_values(|s: PathScope| s@),
            forall|j: int| 0 <= j < i ==> !scope_authorizes(#[trigger] views[j], requested@),
        decreases scopes@.len() - i,
    {
        if scopes[i].authorizes(requested) {
            assert(views[i as int] == scopes@[i as int]@);
            assert(views.to_set().contains(views[i as int]));
            return true;
        }
        i = i + 1;
    }
    proof {
        if some_scope_authorizes(scope_set(scopes@), requested@) {
            let s = choose|s: PathScopeView| scope_set(scopes@).contains(s) && scope_authorizes(s, requested@);
            assert(views.contains(s));
            let k = choose|k: int| 0 <= k < views.len() && views[k] == s;
            assert(!scope_authorizes(views[k], requested@));
        }
    }
    false
}

// ---------------------------------------------------------------- canonical ordering

/// Byte-wise lexicographic order (how Rust orders strings).
pub open spec fn bytes_lt(a: Seq<u8>, b: Seq<u8>) -> bool
    decreases a.len(),
{
    if a.len() == 0 {
        b.len() > 0
    } else if b.len() == 0 {
        false
    } else if a[0] != b[0] {
        a[0] < b[0]
    } else {
        bytes_lt(a.drop_first(), b.drop_first())
    }
}

/// String order: the byte-wise order of the UTF-8 encodings.
pub open spec fn text_lt(a: Seq<char>, b: Seq<char>) -> bool {
    bytes_lt(encode_utf8(a), encode_utf8(b))
}

/// Lexicographic order on component lists.
pub open spec fn components_lt(a: Seq<Seq<char>>, b: Seq<Seq<char>>) -> bool
    decreases a.len(),
{
    if a.len() == 0 {
        b.len() > 0
    } else if b.len() == 0 {
        false
    } else if a[0] != b[0] {
        text_lt(a[0], b[0])
    } else {
        components_lt(a.drop_first(), b.drop_first())
    }
}

pub open spec fn scope_rank(s: PathScopeView) -> int {
    match s {
        PathScopeView::ExactFile(_) => 0,
        PathScopeView::DirectoryTree(_) => 1,
    }
}

pub open spec fn scope_components(s: PathScopeView) -> Seq<Seq<char>> {
    match s {
        PathScopeView::ExactFile(c) => c,
        PathScopeView::DirectoryTree(c) => c,
    }
}

/// The order of canonical scopes: exact files first, then directory trees,
/// each by their components.
pub open spec fn scope_lt(a: PathScopeView, b: PathScopeView) -> bool {
    scope_rank(a) < scope_rank(b) || (scope_rank(a) == scope_rank(b) && components_lt(
        scope_components(a),
        scope_components(b),
    ))
}

pub open spec fn strictly_sorted(l: Seq<PathScopeView>) -> bool {
    forall|i: int, j: int| 0 <= i < j < l.len() ==> scope_lt(#[trigger] l[i], #[trigger] l[j])
}

/// The scopes of `s` in ascending order, each once.
pub open spec fn sorted_scope_list(s: Set<PathScopeView>) -> Seq<PathScopeView> {
    choose|l: Seq<PathScopeView>| strictly_sorted(l) && l.to_set() == s
}

proof fn lemma_bytes_lt_irreflexive(a: Seq<u8>)
    ensures
        !bytes_lt(a, a),
    decreases a.len(),
{
    if a.len() > 0 {
        lemma_bytes_lt_irreflexive(a.drop_first());
    }
}

proof fn lemma_bytes_lt_transitive(a: Seq<u8>, b: Seq<u8>, c: Seq<u8>)
    requires
        bytes_lt(a, b),
        bytes_lt(b, c),
    ensures
        bytes_lt(a, c),
    decreases a.len(),
{
    if a.len() > 0 && b.len() > 0 && c.len() > 0 {
        if a[0] == b[0] && b[0] == c[0] {
            lemma_bytes_lt_transitive(a.drop_first(), b.drop_first(), c.drop_first());
        }
    }
}

proof fn lemma_text_lt_irreflexive(a: Seq<char>)
    ensures
        !text_lt(a, a),
{
    lemma_bytes_lt_irreflexive(encode_utf8(a));
}

proof fn lemma_text_lt_transitive(a: Seq<char>, b: Seq<char>, c: Seq<char>)
    requires
        text_lt(a, b),
        text_lt(b, c),
    ensures
        text_lt(a, c),
{
    lemma_bytes_lt_transitive(encode_utf8(a), encode_utf8(b), encode_utf8(c));
}

proof fn lemma_components_lt_irreflexive(a: Seq<Seq<char>>)
    ensures
        !components_lt(a, a),
    decreases a.len(),
{
    if a.len() > 0 {
        lemma_components_lt_irreflexive(a.drop_first());
    }
}

proof fn lemma_components_lt_transitive(a: Seq<Seq<char>>, b: Seq<Seq<char>>, c: Seq<Seq<char>>)
    requires
        components_lt(a, b),
        components_lt(b, c),
    ensures
        components_lt(a, c),
    decreases a.len(),
{
    if a.len() > 0 && b.len() > 0 && c.len() > 0 {
        if a[0] == b[0] && b[0] == c[0] {
            lemma_components_lt_transitive(a.drop_first(), b.drop_first(), c.drop_first());
        } else if a[0] == b[0] {
        } else if b[0] == c[0] {
        } else {
            lemma_text_lt_transitive(a[0], b[0], c[0]);
            if a[0] == c[0] {
                lemma_text_lt_transitive(a[0], b[0], a[0]);
                lemma_text_lt_irreflexive(a[0]);
            }
        }
    }
}

proof fn lemma_scope_lt_irreflexive(a: PathScopeView)
    ensures
        !scope_lt(a, a),
{
    lemma_components_lt_irreflexive(scope_components(a));
}

proof fn lemma_scope_lt_transitive(a: PathScopeView, b: PathScopeView, c: PathScopeView)
    requires
        scope_lt(a, b),
        scope_lt(b, c),
    ensures
        scope_lt(a, c),
{
    if scope_rank(a) == scope_rank(b) && scope_rank(b) == scope_rank(c) {
        lemma_components_lt_transitive(scope_components(a), scope_components(b), scope_components(c));
    }
}

proof fn lemma_sorted_drop_first(l: Seq<PathScopeView>)
    requires
        strictly_sorted(l),
        l.len() > 0,
    ensures
        strictly_sorted(l.drop_first()),
        l.drop_first().to_set() == l.to_set().remove(l[0]),
{
    let t = l.drop_first();
    assert forall|i: int, j: int| 0 <= i < j < t.len() implies scope_lt(#[trigger] t[i], #[trigger] t[j]) by {
        assert(t[i] == l[i + 1] && t[j] == l[j + 1]);
    }
    assert forall|x: PathScopeView| t.to_set().contains(x) <==> l.to_set().remove(l[0]).contains(x) by {
        if t.to_set().contains(x) {
            let k = choose|k: int| 0 <= k < t.len() && t[k] == x;
            assert(l[k + 1] == x);
            assert(scope_lt(l[0], l[k + 1]));
            if x == l[0] {
                lemma_scope_lt_irreflexive(x);
            }
            assert(l.contains(x));
        }
        if l.to_set().remove(l[0]).contains(x) {
            let k = choose|k: int| 0 <= k < l.len() && l[k] == x;
            assert(k != 0);
            assert(t[k - 1] == x);
            assert(t.contains(x));
        }
    }
    assert(t.to_set() =~= l.to_set().remove(l[0]));
}

/// A set has only one ascending enumeration without repeats.
pub proof fn lemma_sorted_enumeration_unique(a: Seq<PathScopeView>, b: Seq<PathScopeView>)
    requires
        strictly_sorted(a),
        strictly_sorted(b),
        a.to_set() == b.to_set(),
    ensures
        a == b,
    decreases a.len(),
{
    if a.len() == 0 {
        if b.len() > 0 {
            assert(b.to_set().contains(b[0]));
            assert(a.to_set().contains(b[0]));
        }
        assert(a =~= b);
    } else {
        assert(a.to_set().contains(a[0]));
        assert(b.to_set().contains(a[0]));
        let j = choose|j: int| 0 <= j < b.len() && b[j] == a[0];
        assert(b.to_set().contains(b[0]));
        let i = choose|i: int| 0 <= i < a.len() && a[i] == b[0];
        if j > 0 {
            assert(scope_lt(b[0], b[j]));
            if i > 0 {
                assert(scope_lt(a[0], a[i]));
                lemma_scope_lt_transitive(a[0], a[i], a[0]);
                lemma_scope_lt_irreflexive(a[0]);
            } else {
                lemma_scope_lt_irreflexive(a[0]);
            }
        }
        assert(a[0] == b[0]);
        lemma_sorted_drop_first(a);
        lemma_sorted_drop_first(b);
        lemma_sorted_enumeration_unique(a.drop_first(), b.drop_first());
        assert(a =~= seq![a[0]] + a.drop_first());
        assert(b =~= seq![b[0]] + b.drop_first());
    }
}

// ---------------------------------------------------------------- canonical scopes

/// A path scope written as the component list that goes into the manifest digest.
enum CanonicalPathScope {
    ExactFile { components: Vec<String> },
    DirectoryTree { components: Vec<String> },
}

impl View for CanonicalPathScope {
    type V = PathScopeView;

    closed spec fn view(&self) -> PathScopeView {
        match self {
            CanonicalPathScope::ExactFile { components } => PathScopeView::ExactFile(
                string_views(components@),
            ),
            CanonicalPathScope::DirectoryTree { components } => PathScopeView::DirectoryTree(
                string_views(components@),
            ),
        }
    }
}

impl CanonicalPathScope {
    fn from_scope(scope: &PathScope) -> (r: CanonicalPathScope)
        ensures
            r@ == scope@,
    {
        match scope {
            PathScope::ExactFile(path) => CanonicalPathScope::ExactFile {
                components: path.to_canonical_components(),
            },
            PathScope::DirectoryTree(path) => CanonicalPathScope::DirectoryTree {
                components: path.to_canonical_components(),
            },
        }
    }

    fn rank(&self) -> (r: u8)
        ensures
            r as int == scope_rank(self@),
    {
        match self {
            CanonicalPathScope::ExactFile { .. } => 0,
            CanonicalPathScope::DirectoryTree { .. } => 1,
        }
    }

    fn components(&self) -> (r: &Vec<String>)
        ensures
            string_views(r@) == scope_components(self@),
    {
        match self {
            CanonicalPathScope::ExactFile { components } => components,
            CanonicalPathScope::DirectoryTree { components } => components,
        }
    }
}

enum Order {
    Less,
    Equal,
    Greater,
}

proof fn lemma_bytes_lt_skip(a: Seq<u8>, b: Seq<u8>, i: int)
    requires
        0 <= i <= a.len(),
        i <= b.len(),
        forall|j: int| 0 <= j < i ==> a[j] == b[j],
    ensures
        bytes_lt(a, b) == bytes_lt(a.skip(i), b.skip(i)),
    decreases i,
{
    if i > 0 {
        assert forall|j: int| 0 <= j < i - 1 implies a.drop_first()[j] == b.drop_first()[j] by {
            assert(a[j + 1] == b[j + 1]);
        }
        lemma_bytes_lt_skip(a.drop_first(), b.drop_first(), i - 1);
        assert(a.drop_first().skip(i - 1) =~= a.skip(i));
        assert(b.drop_first().skip(i - 1) =~= b.skip(i));
        assert(a[0] == b[0]);
    } else {
        assert(a.skip(0) =~= a);
        assert(b.skip(0) =~= b);
    }
}

fn order_bytes(a: &[u8], b: &[u8]) -> (r: Order)
    ensures
        r is Less <==> bytes_lt(a@, b@),
        r is Equal <==> a@ == b@,
        r is Greater <==> bytes_lt(b@, a@),
{
    let mut i: usize = 0;
    while i < a.len() && i < b.len()
        invariant
            i <= a@.len(),
            i <= b@.len(),
            forall|j: int| 0 <= j < i ==> a@[j] == b@[j],
        decreases a@.len() - i,
    {
        if a[i] != b[i] {
            proof {
                lemma_bytes_lt_skip(a@, b@, i as int);
                lemma_bytes_lt_skip(b@, a@, i as int);
                assert(a@.skip(i as int)[0] == a@[i as int]);
                assert(b@.skip(i as int)[0] == b@[i as int]);
            }
            if a[i] < b[i] {
                return Order::Less;
            } else {
                return Order::Greater;
            }
        }
        i = i + 1;
    }
    proof {
        lemma_bytes_lt_skip(a@, b@, i as int);
        lemma_bytes_lt_skip(b@, a@, i as int);
        if a@.len() == b@.len() {
            assert(a@ =~= b@);
        } else {
            assert(a@ != b@);
        }
    }
    if a.len() == b.len() {
        Order::Equal
    } else if a.len() < b.len() {
        Order::Less
    } else {
        Order::Greater
    }
}

fn order_text(a: &String, b: &String) -> (r: Order)
    ensures
        r is Less <==> text_lt(a@, b@),
        r is Equal <==> a@ == b@,
        r is Greater <==> text_lt(b@, a@),
{
    let r = order_bytes(a.as_str().as_bytes(), b.as_str().as_bytes());
    proof {
        encode_utf8_decode_utf8(a@);
        encode_utf8_decode_utf8(b@);
    }
    r
}

proof fn lemma_components_lt_skip(a: Seq<Seq<char>>, b: Seq<Seq<char>>, i: int)
    requires
        0 <= i <= a.len(),
        i <= b.len(),
        forall|j: int| 0 <= j < i ==> a[j] == b[j],
    ensures
        components_lt(a, b) == components_lt(a.skip(i), b.skip(i)),
    decreases i,
{
    if i > 0 {
        assert forall|j: int| 0 <= j < i - 1 implies a.drop_first()[j] == b.drop_first()[j] by {
            assert(a[j + 1] == b[j + 1]);
        }
        lemma_components_lt_skip(a.drop_first(), b.drop_first(), i - 1);
        assert(a.drop_first().skip(i - 1) =~= a.skip(i));
        assert(b.drop_first().skip(i - 1) =~= b.skip(i));
        assert(a[0] == b[0]);
    } else {
        assert(a.skip(0) =~= a);
        assert(b.skip(0) =~= b);
    }
}

fn order_components(a: &Vec<String>, b: &Vec<String>) -> (r: Order)
    ensures
        r is Less <==> components_lt(string_views(a@), string_views(b@)),
        r is Equal <==> string_views(a@) == string_views(b@),
        r is Greater <==> components_lt(string_views(b@), string_views(a@)),
{
    let ghost av = string_views(a@);
    let ghost bv = string_views(b@);
    let mut i: usize = 0;
    while i < a.len() && i < b.len()
        invariant
            av == string_views(a@),
            bv == string_views(b@),
            i <= a@.len(),
            i <= b@.len(),
            forall|j: int| 0 <= j < i ==> av[j] == bv[j],
        decreases a@.len() - i,
    {
        match order_text(&a[i], &b[i]) {
            Order::Equal => {},
            Order::Less => {
                proof {
                    lemma_components_lt_skip(av, bv, i as int);
                    lemma_components_lt_skip(bv, av, i as int);
                    assert(av.skip(i as int)[0] == av[i as int]);
                    assert(bv.skip(i as int)[0] == bv[i as int]);
                    lemma_text_lt_irreflexive(av[i as int]);
                    if text_lt(bv[i as int], av[i as int]) {
                        lemma_text_lt_transitive(av[i as int], bv[i as int], av[i as int]);
                    }
                }
                return Order::Less;
            },
            Order::Greater => {
                proof {
                    lemma_components_lt_skip(av, bv, i as int);
                    lemma_components_lt_skip(bv, av, i as int);
                    assert(av.skip(i as int)[0] == av[i as int]);
                    assert(bv.skip(i as int)[0] == bv[i as int]);
                    lemma_text_lt_irreflexive(av[i as int]);
                    if text_lt(av[i as int], bv[i as int]) {
                        lemma_text_lt_transitive(av[i as int], bv[i as int], av[i as int]);
                    }
                }
                return Order::Greater;
            },
        }
        i = i + 1;
    }
    proof {
        lemma_components_lt_skip(av, bv, i as int);
        lemma_components_lt_skip(bv, av, i as int);
        if a@.len() == b@.len() {
            assert(av =~= bv);
        } else {
            assert(av.len() != bv.len());
        }
    }
    if a.len() == b.len() {
        Order::Equal
    } else if a.len() < b.len() {
        Order::Less
    } else {
        Order::Greater
    }
}

fn order_scopes(a: &CanonicalPathScope, b: &CanonicalPathScope) -> (r: Order)
    ensures
        r is Less <==> scope_lt(a@, b@),
        r is Equal <==> a@ == b@,
        r is Greater <==> scope_lt(b@, a@),
{
    let ra = a.rank();
    let rb = b.rank();
    if ra < rb {
        Order::Less
    } else if rb < ra {
        Order::Greater
    } else {
        let r = order_components(a.components(), b.components());
        proof {
            if a@ != b@ {
                assert(scope_components(a@) != scope_components(b@));
            }
        }
        r
    }
}

spec fn canonical_views(l: Seq<CanonicalPathScope>) -> Seq<PathScopeView> {
    l.map_values(|c: CanonicalPathScope| c@)
}

proof fn lemma_push_to_set<A>(s: Seq<A>, x: A)
    ensures
        s.push(x).to_set() == s.to_set().insert(x),
{
    assert forall|y: A| s.push(x).to_set().contains(y) <==> s.to_set().insert(x).contains(y) by {
        if s.push(x).to_set().contains(y) {
            let k = choose|k: int| 0 <= k < s.push(x).len() && s.push(x)[k] == y;
            if k < s.len() {
                assert(s[k] == y);
            }
        }
        if s.to_set().contains(y) {
            let k = choose|k: int| 0 <= k < s.len() && s[k] == y;
            assert(s.push(x)[k] == y);
        }
        if y == x {
            assert(s.push(x)[s.len() as int] == x);
        }
    }
    assert(s.push(x).to_set() =~= s.to_set().insert(x));
}

/// The scopes of the list, ascending, each once.
fn sorted_canonical_scopes(scopes: &Vec<PathScope>) -> (r: Vec<CanonicalPathScope>)
    ensures
        strictly_sorted(canonical_views(r@)),
        canonical_views(r@).to_set() == scope_set(scopes@),
{
    let ghost views = scopes@.map_values(|s: PathScope| s@);
    let mut out: Vec<CanonicalPathScope> = Vec::new();
    let mut i: usize = 0;
    assert(canonical_views(out@).to_set() =~= views.take(0).to_set());
    while i < scopes.len()
        invariant
            i <= scopes@.len(),
            views == scopes@.map_values(|s: PathScope| s@),
            strictly_sorted(canonical_views(out@)),
            canonical_views(out@).to_set() == views.take(i as int).to_set(),
        decreases scopes@.len() - i,
    {
        let item = CanonicalPathScope::from_scope(&scopes[i]);
        let ghost x = item@;
        let ghost before = canonical_views(out@);
        let mut p: usize = 0;
        let mut duplicate = false;
        while p < out.len()
            invariant
                p <= out@.len(),
                before == canonical_views(out@),
                x == item@,
                forall|k: int| 0 <= k < p ==> scope_lt(#[trigger] before[k], x),
                duplicate ==> before.contains(x),
            ensures
                p <= out@.len(),
                forall|k: int| 0 <= k < p ==> scope_lt(#[trigger] before[k], x),
                duplicate ==> before.contains(x),
                !duplicate && p < out@.len() ==> scope_lt(x, before[p as int]),
            decreases out@.len() - p,
        {
            match order_scopes(&out[p], &item) {
                Order::Less => {
                    p = p + 1;
                },
                Order::Equal => {
                    duplicate = true;
                    assert(before[p as int] == x);
                    break;
                },
                Order::Greater => {
                    break;
                },
            }
        }
        proof {
            assert(views.take(i + 1) =~= views.take(i as int).push(x));
            assert(views[i as int] == x);
            lemma_push_to_set(views.take(i as int), x);
        }
        if duplicate {
            proof {
                assert(before.to_set().contains(x));
                assert(before.to_set().insert(x) =~= before.to_set());
            }
        } else {
            proof {
                assert(p < out@.len() ==> scope_lt(x, before[p as int]));
            }
            out.insert(p, item);
            proof {
                let after = canonical_views(out@);
                assert(after =~= before.insert(p as int, x));
                assert forall|a: int, b: int| 0 <= a < b < after.len() implies scope_lt(
                    #[trigger] after[a],
                    #[trigger] after[b],
                ) by {
                    if b < p {
                        assert(after[a] == before[a] && after[b] == before[b]);
                    } else if b == p {
                        assert(after[a] == before[a]);
                    } else if a == p {
                        assert(after[b] == before[b - 1]);
                        if b - 1 > p {
                            lemma_scope_lt_transitive(x, before[p as int], before[b - 1]);
                        }
                    } else if a < p {
                        assert(after[a] == before[a] && after[b] == before[b - 1]);
                        lemma_scope_lt_transitive(before[a], x, before[p as int]);
                        if b - 1 > p {
                            lemma_scope_lt_transitive(before[a], before[p as int], before[b - 1]);
                        }
                    } else {
                        assert(after[a] == before[a - 1] && after[b] == before[b - 1]);
                    }
                }
                assert(after.to_set() =~= before.to_set().insert(x)) by {
                    assert forall|y: PathScopeView| after.to_set().contains(y) <==> before.to_set().insert(x).contains(y) by {
                        if after.to_set().contains(y) {
                            let k = choose|k: int| 0 <= k < after.len() && after[k] == y;
                            if k < p {
                                assert(before[k] == y);
                            } else if k > p {
                                assert(before[k - 1] == y);
                            }
                        }
                        if before.to_set().contains(y) {
                            let k = choose|k: int| 0 <= k < before.len() && before[k] == y;
                            if k < p {
                                assert(after[k] == y);
                            } else {
                                assert(after[k + 1] == y);
                            }
                        }
                        if y == x {
                            assert(after[p as int] == x);
                        }
                    }
                }
            }
        }
        i = i + 1;
    }
    assert(views.take(scopes@.len() as int) =~= views);
    out
}

// ---------------------------------------------------------------- the manifest

/// What one session is allowed to do.
#[derive(Debug)]
pub struct ScopeManifest {
    pub manifest_id: ManifestId,
    pub environment: Environment,
    /// The capabilities granted; order and repeats carry no meaning.
    pub allowed_capabilities: Vec<ToolCapability>,
    /// The scopes reads may touch; order and repeats carry no meaning.
    pub read_scopes: Vec<PathScope>,
    /// The scopes writes may touch; order and repeats carry no meaning.
    pub write_scopes: Vec<PathScope>,
    pub step_budget: u32,
}

pub struct ScopeManifestView {
    pub manifest_id: Seq<char>,
    pub environment: Environment,
    pub allowed_capabilities: Set<ToolCapability>,
    pub read_scopes: Set<PathScopeView>,
    pub write_scopes: Set<PathScopeView>,
    pub step_budget: u32,
}

impl View for ScopeManifest {
    type V = ScopeManifestView;

    open spec fn view(&self) -> ScopeManifestView {
        ScopeManifestView {
            manifest_id: self.manifest_id@,
            environment: self.environment,
            allowed_capabilities: self.allowed_capabilities@.to_set(),
            read_scopes: scope_set(self.read_scopes@),
            write_scopes: scope_set(self.write_scopes@),
            step_budget: self.step_budget,
        }
    }
}

/// The granted capabilities' wire names, in ascending order of those names
/// (`execute_cargo_tests` < `read_file` < `write_file`).
pub open spec fn sorted_capability_names(caps: Set<ToolCapability>) -> Seq<Seq<char>> {
    (if caps.contains(ToolCapability::ExecuteCargoTests) {
        seq![capability_wire_name(ToolCapability::ExecuteCargoTests)]
    } else {
        seq![]
    }) + (if caps.contains(ToolCapability::ReadFile) {
        seq![capability_wire_name(ToolCapability::ReadFile)]
    } else {
        seq![]
    }) + (if caps.contains(ToolCapability::WriteFile) {
        seq![capability_wire_name(ToolCapability::WriteFile)]
    } else {
        seq![]
    })
}

/// One canonical scope as JSON: `{"ExactFile":{"components":[...]}}` or the
/// same with `DirectoryTree`.
pub open spec fn scope_json(s: PathScopeView) -> Seq<char> {
    match s {
        PathScopeView::ExactFile(c) => "{\"ExactFile\":{\"components\":"@ + json_string_array(c)
            + "}}"@,
        PathScopeView::DirectoryTree(c) => "{\"DirectoryTree\":{\"components\":"@
            + json_string_array(c) + "}}"@,
    }
}

pub open spec fn scopes_json(l: Seq<PathScopeView>) -> Seq<char> {
    json_list(l.map_values(|s: PathScopeView| scope_json(s)))
}

/// The manifest's canonical form: compact JSON with fields in a fixed order,
/// capabilities and scopes sorted and free of repeats.
pub open spec fn canonical_manifest_json(m: ScopeManifestView) -> Seq<char> {
    "{\"manifest_id\":"@ + json_string(m.manifest_id) + ",\"environment\":"@ + json_string(
        environment_wire_name(m.environment),
    ) + ",\"allowed_capabilities\":"@ + json_string_array(
        sorted_capability_names(m.allowed_capabilities),
    ) + ",\"read_scopes\":"@ + scopes_json(sorted_scope_list(m.read_scopes)) + ",\"write_scopes\":"@
        + scopes_json(sorted_scope_list(m.write_scopes)) + ",\"step_budget\":"@ + decimal(
        m.step_budget as nat,
    ) + "}"@
}

/// The digest that approvals name a manifest by: lower-case hex of the
/// SHA-256 of the canonical form's UTF-8 bytes.
pub open spec fn manifest_digest(m: ScopeManifestView) -> Seq<char> {
    hex_lower(sha256(encode_utf8(canonical_manifest_json(m))))
}

/// Whether the list grants capability `c`.
pub fn contains_capability(caps: &Vec<ToolCapability>, c: ToolCapability) -> (r: bool)
    ensures
        r == caps@.to_set().contains(c),
{
    let mut i: usize = 0;
    while i < caps.len()
        invariant
            i <= caps@.len(),
            forall|j: int| 0 <= j < i ==> caps@[j] != c,
        decreases caps@.len() - i,
    {
        if caps[i] == c {
            assert(caps@.contains(c));
            return true;
        }
        i = i + 1;
    }
    false
}

fn push_capability_names(out: &mut String, caps: &Vec<ToolCapability>)
    ensures
        final(out)@ == old(out)@ + json_string_array(sorted_capability_names(caps@.to_set())),
{
    let mut names: Vec<String> = Vec::new();
    if contains_capability(caps, ToolCapability::ExecuteCargoTests) {
        names.push(ToolCapability::ExecuteCargoTests.wire_name().to_owned());
    }
    if contains_capability(caps, ToolCapability::ReadFile) {
        names.push(ToolCapability::ReadFile.wire_name().to_owned());
    }
    if contains_capability(caps, ToolCapability::WriteFile) {
        names.push(ToolCapability::WriteFile.wire_name().to_owned());
    }
    assert(names@.map_values(|s: String| s@) =~= sorted_capability_names(caps@.to_set()));
    push_json_string_array(out, &names);
}

fn push_scope_json(out: &mut String, s: &CanonicalPathScope)
    ensures
        final(out)@ == old(out)@ + scope_json(s@),
{
    match s {
        CanonicalPathScope::ExactFile { components } => {
            push_str(out, "{\"ExactFile\":{\"components\":");
            push_json_string_array(out, components);
            push_str(out, "}}");
        },
        CanonicalPathScope::DirectoryTree { components } => {
            push_str(out, "{\"DirectoryTree\":{\"components\":");
            push_json_string_array(out, components);
            push_str(out, "}}");
        },
    }
    assert(final(out)@ =~= old(out)@ + scope_json(s@));
}

fn push_scopes_json(out: &mut String, scopes: &Vec<PathScope>)
    ensures
        final(out)@ == old(out)@ + scopes_json(sorted_scope_list(scope_set(scopes@))),
{
    let sorted = sorted_canonical_scopes(scopes);
    let ghost l = canonical_views(sorted@);
    proof {
        let chosen = sorted_scope_list(scope_set(scopes@));
        assert(strictly_sorted(chosen) && chosen.to_set() == scope_set(scopes@));
        lemma_sorted_enumeration_unique(l, chosen);
    }
    let ghost start = out@;
    let ghost items = l.map_values(|s: PathScopeView| scope_json(s));
    push_char(out, '[');
    let mut i: usize = 0;
    assert(items.take(0) =~= Seq::<Seq<char>>::empty());
    while i < sorted.len()
        invariant
            i <= sorted@.len(),
            l == canonical_views(sorted@),
            items == l.map_values(|s: PathScopeView| scope_json(s)),
            out@ == start + seq!['['] + join_with(items.take(i as int), ','),
        decreases sorted@.len() - i,
    {
        if i > 0 {
            push_char(out, ',');
        }
        push_scope_json(out, &sorted[i]);
        proof {
            lemma_join_with_step(items, i as int, ',');
            assert(items[i as int] == scope_json(sorted@[i as int]@));
            if i == 0 {
                assert(out@ =~= start + seq!['['] + join_with(items.take(1), ','));
            } else {
                assert(out@ =~= start + seq!['['] + join_with(items.take(i + 1), ','));
            }
        }
        i = i + 1;
    }
    push_char(out, ']');
    assert(items.take(sorted@.len() as int) =~= items);
    assert(out@ =~= start + scopes_json(l));
}

impl ScopeManifest {
    /// The manifest's canonical form (see [`canonical_manifest_json`]).
    pub fn canonical_json(&self) -> (r: String)
        ensures
            r@ == canonical_manifest_json(self@),
    {
        let mut out = String::new();
        push_str(&mut out, "{\"manifest_id\":");
        push_json_string(&mut out, self.manifest_id.as_str());
        push_str(&mut out, ",\"environment\":");
        push_json_string(&mut out, self.environment.wire_name());
        push_str(&mut out, ",\"allowed_capabilities\":");
        push_capability_names(&mut out, &self.allowed_capabilities);
        push_str(&mut out, ",\"read_scopes\":");
        push_scopes_json(&mut out, &self.read_scopes);
        push_str(&mut out, ",\"write_scopes\":");
        push_scopes_json(&mut out, &self.write_scopes);
        push_str(&mut out, ",\"step_budget\":");
        push_decimal(&mut out, self.step_budget as u64);
        push_str(&mut out, "}");
        assert(out@ =~= canonical_manifest_json(self@));
        out
    }

    /// The manifest's digest; it never fails.
    pub fn compute_canonical_hash(&self) -> (r: Result<ManifestHash, BoundaryError>)
        ensures
            r matches Ok(h) && h@ == manifest_digest(self@),
    {
        let json = self.canonical_json();
        let digest = sha256_digest(json.as_str().as_bytes());
        let hex = to_hex_lower(digest.as_slice());
        proof {
            lemma_hex_lower_shape(digest@);
            assert(exact_hex_valid(hex@, 64));
        }
        ManifestHash::try_from(hex)
    }
}

// ---------------------------------------------------------------- laws

/// Law: an exact-file scope covers its own file and nothing else.
pub proof fn lemma_exact_scope_covers_only_its_file(file: Seq<Seq<char>>, requested: Seq<Seq<char>>)
    ensures
        scope_authorizes(PathScopeView::ExactFile(file), requested) <==> requested == file,
{
}

/// Law: a directory-tree scope never covers the directory itself, and it
/// covers everything below whatever it covers.
pub proof fn lemma_tree_scope_is_strictly_below_and_downward_closed(
    dir: Seq<Seq<char>>,
    p: Seq<Seq<char>>,
    q: Seq<Seq<char>>,
)
    ensures
        !scope_authorizes(PathScopeView::DirectoryTree(dir), dir),
        scope_authorizes(PathScopeView::DirectoryTree(dir), p) && p.is_prefix_of(q) ==> scope_authorizes(
            PathScopeView::DirectoryTree(dir),
            q,
        ),
{
    if scope_authorizes(PathScopeView::DirectoryTree(dir), p) && p.is_prefix_of(q) {
        assert(p.len() > dir.len()) by {
            if p.len() == dir.len() {
                assert(p =~= dir);
            }
        }
        assert forall|i: int| 0 <= i < dir.len() implies dir[i] == q[i] by {
            assert(dir[i] == p[i]);
        }
    }
}

/// Law: the manifest digest depends only on what the manifest grants. Two
/// manifests with the same id, environment and budget, granting the same set
/// of capabilities and the same sets of read and write scopes, have the same
/// digest, however their lists are ordered and whatever they repeat.
pub proof fn lemma_digest_depends_only_on_grants(a: ScopeManifest, b: ScopeManifest)
    requires
        a.manifest_id@ == b.manifest_id@,
        a.environment == b.environment,
        a.step_budget == b.step_budget,
        a.allowed_capabilities@.to_set() == b.allowed_capabilities@.to_set(),
        scope_set(a.read_scopes@) == scope_set(b.read_scopes@),
        scope_set(a.write_scopes@) == scope_set(b.write_scopes@),
    ensures
        manifest_digest(a@) == manifest_digest(b@),
{
    assert(a@ == b@);
}

// ---------------------------------------------------------------- the canonical form names the manifest

/// What follows the first scope of a scope list: `,` and the next scope and
/// so on, then `]`.
pub open spec fn scopes_rest(l: Seq<PathScopeView>) -> Seq<char>
    decreases l.len(),
{
    if l.len() == 0 {
        seq![']']
    } else {
        seq![','] + scope_json(l[0]) + scopes_rest(l.drop_first())
    }
}

proof fn lemma_scopes_as_rest(l: Seq<PathScopeView>)
    ensures
        l.len() == 0 ==> scopes_json(l) == seq!['[', ']'],
        l.len() > 0 ==> scopes_json(l) == seq!['['] + scope_json(l[0]) + scopes_rest(l.drop_first()),
    decreases l.len(),
{
    let items = l.map_values(|s: PathScopeView| scope_json(s));
    if l.len() == 0 {
        assert(scopes_json(l) =~= seq!['[', ']']);
    } else if l.len() == 1 {
        assert(l.drop_first().len() == 0);
        assert(join_with(items, ',') == items[0]);
        assert(scopes_json(l) =~= seq!['['] + scope_json(l[0]) + scopes_rest(l.drop_first()));
    } else {
        lemma_scopes_as_rest(l.drop_first());
        lemma_join_with_front(items, ',');
        let rest = l.drop_first();
        let rest_items = rest.map_values(|s: PathScopeView| scope_json(s));
        assert(items.drop_first() =~= rest_items);
        assert(items[0] == scope_json(l[0]));
        assert(scopes_json(rest) == seq!['['] + join_with(rest_items, ',') + seq![']']);
        let inner = scope_json(rest[0]) + scopes_rest(rest.drop_first());
        assert(seq!['['] + scope_json(rest[0]) + scopes_rest(rest.drop_first()) =~= seq!['['] + inner);
        assert(seq!['['] + join_with(rest_items, ',') + seq![']'] =~= seq!['['] + (join_with(
            rest_items,
            ',',
        ) + seq![']']));
        lemma_strip_prefix(seq!['['], join_with(rest_items, ',') + seq![']'], inner);
        assert(scopes_json(l) == seq!['['] + join_with(items, ',') + seq![']']);
        let jr = scopes_rest(l.drop_first());
        assert(jr == seq![','] + scope_json(rest[0]) + scopes_rest(rest.drop_first()));
        assert(jr =~= seq![','] + inner);
        assert(scopes_json(l) =~= seq!['['] + scope_json(l[0]) + scopes_rest(l.drop_first()));
    }
}

proof fn lemma_scope_json_injective(a: PathScopeView, b: PathScopeView, r1: Seq<char>, r2: Seq<char>)
    requires
        scope_json(a) + r1 == scope_json(b) + r2,
    ensures
        a == b,
        r1 == r2,
{
    let e = "{\"ExactFile\":{\"components\":"@;
    let d = "{\"DirectoryTree\":{\"components\":"@;
    reveal_strlit("{\"ExactFile\":{\"components\":");
    reveal_strlit("{\"DirectoryTree\":{\"components\":");
    let ta = scope_json(a) + r1;
    match (a, b) {
        (PathScopeView::ExactFile(c1), PathScopeView::ExactFile(c2)) => {
            assert(scope_json(a) + r1 =~= e + (json_string_array(c1) + ("}}"@ + r1)));
            assert(scope_json(b) + r2 =~= e + (json_string_array(c2) + ("}}"@ + r2)));
            lemma_strip_prefix(e, json_string_array(c1) + ("}}"@ + r1), json_string_array(c2) + ("}}"@ + r2));
            lemma_json_string_array_injective(c1, c2, "}}"@ + r1, "}}"@ + r2);
            lemma_strip_prefix("}}"@, r1, r2);
        },
        (PathScopeView::DirectoryTree(c1), PathScopeView::DirectoryTree(c2)) => {
            assert(scope_json(a) + r1 =~= d + (json_string_array(c1) + ("}}"@ + r1)));
            assert(scope_json(b) + r2 =~= d + (json_string_array(c2) + ("}}"@ + r2)));
            lemma_strip_prefix(d, json_string_array(c1) + ("}}"@ + r1), json_string_array(c2) + ("}}"@ + r2));
            lemma_json_string_array_injective(c1, c2, "}}"@ + r1, "}}"@ + r2);
            lemma_strip_prefix("}}"@, r1, r2);
        },
        (PathScopeView::ExactFile(c1), PathScopeView::DirectoryTree(c2)) => {
            assert(ta[2] == e[2]);
            assert((scope_json(b) + r2)[2] == d[2]);
        },
        (PathScopeView::DirectoryTree(c1), PathScopeView::ExactFile(c2)) => {
            assert(ta[2] == d[2]);
            assert((scope_json(b) + r2)[2] == e[2]);
        },
    }
}

proof fn lemma_scopes_rest_injective(a: Seq<PathScopeView>, b: Seq<PathScopeView>, r1: Seq<char>, r2: Seq<char>)
    requires
        scopes_rest(a) + r1 == scopes_rest(b) + r2,
    ensures
        a == b,
        r1 == r2,
    decreases a.len(),
{
    let t1 = scopes_rest(a) + r1;
    let t2 = scopes_rest(b) + r2;
    if a.len() == 0 {
        assert(t1[0] == ']');
        if b.len() > 0 {
            assert(t2[0] == ',');
        }
        assert(a =~= b);
        assert(r1 =~= t1.drop_first());
        assert(r2 =~= t2.drop_first());
    } else {
        assert(t1[0] == ',');
        if b.len() == 0 {
            assert(t2[0] == ']');
        }
        let u1 = scopes_rest(a.drop_first()) + r1;
        let u2 = scopes_rest(b.drop_first()) + r2;
        assert(t1 =~= seq![','] + (scope_json(a[0]) + u1));
        assert(t2 =~= seq![','] + (scope_json(b[0]) + u2));
        lemma_strip_prefix(seq![','], scope_json(a[0]) + u1, scope_json(b[0]) + u2);
        lemma_scope_json_injective(a[0], b[0], u1, u2);
        lemma_scopes_rest_injective(a.drop_first(), b.drop_first(), r1, r2);
        assert(a =~= seq![a[0]] + a.drop_first());
        assert(b =~= seq![b[0]] + b.drop_first());
    }
}

proof fn lemma_scopes_json_injective(a: Seq<PathScopeView>, b: Seq<PathScopeView>, r1: Seq<char>, r2: Seq<char>)
    requires
        scopes_json(a) + r1 == scopes_json(b) + r2,
    ensures
        a == b,
        r1 == r2,
{
    lemma_scopes_as_rest(a);
    lemma_scopes_as_rest(b);
    let t1 = scopes_json(a) + r1;
    let t2 = scopes_json(b) + r2;
    if a.len() == 0 && b.len() == 0 {
        assert(r1 =~= t1.subrange(2, t1.len() as int));
        assert(r2 =~= t2.subrange(2, t2.len() as int));
    } else if a.len() == 0 {
        assert(t1[1] == ']');
        assert(t2[1] == scope_json(b[0])[0]);
        reveal_strlit("{\"ExactFile\":{\"components\":");
        reveal_strlit("{\"DirectoryTree\":{\"components\":");
    } else if b.len() == 0 {
        assert(t2[1] == ']');
        assert(t1[1] == scope_json(a[0])[0]);
        reveal_strlit("{\"ExactFile\":{\"components\":");
        reveal_strlit("{\"DirectoryTree\":{\"components\":");
    } else {
        let u1 = scopes_rest(a.drop_first()) + r1;
        let u2 = scopes_rest(b.drop_first()) + r2;
        assert(t1 =~= seq!['['] + (scope_json(a[0]) + u1));
        assert(t2 =~= seq!['['] + (scope_json(b[0]) + u2));
        lemma_strip_prefix(seq!['['], scope_json(a[0]) + u1, scope_json(b[0]) + u2);
        lemma_scope_json_injective(a[0], b[0], u1, u2);
        lemma_scopes_rest_injective(a.drop_first(), b.drop_first(), r1, r2);
        assert(a =~= seq![a[0]] + a.drop_first());
        assert(b =~= seq![b[0]] + b.drop_first());
    }
}

proof fn lemma_environment_names_distinct(a: Environment, b: Environment)
    requires
        environment_wire_name(a) == environment_wire_name(b),
    ensures
        a == b,
{
    reveal_strlit("development");
    reveal_strlit("staging");
    reveal_strlit("production");
    assert("development"@.len() == 11);
    assert("staging"@.len() == 7);
    assert("production"@.len() == 10);
    assert(environment_wire_name(a).len() == environment_wire_name(b).len());
}

proof fn lemma_capability_names_determine_grants(a: Set<ToolCapability>, b: Set<ToolCapability>)
    requires
        sorted_capability_names(a) == sorted_capability_names(b),
    ensures
        a == b,
{
    reveal_strlit("read_file");
    reveal_strlit("write_file");
    reveal_strlit("execute_cargo_tests");
    let e = capability_wire_name(ToolCapability::ExecuteCargoTests);
    let r = capability_wire_name(ToolCapability::ReadFile);
    let w = capability_wire_name(ToolCapability::WriteFile);
    assert(e.len() == 19 && r.len() == 9 && w.len() == 10);
    let na = sorted_capability_names(a);
    let nb = sorted_capability_names(b);
    assert(na.contains(e) == a.contains(ToolCapability::ExecuteCargoTests)) by {
        if na.contains(e) {
            let i = choose|i: int| 0 <= i < na.len() && na[i] == e;
        }
        if a.contains(ToolCapability::ExecuteCargoTests) {
            assert(na[0] == e);
        }
    }
    assert(nb.contains(e) == b.contains(ToolCapability::ExecuteCargoTests)) by {
        if nb.contains(e) {
            let i = choose|i: int| 0 <= i < nb.len() && nb[i] == e;
        }
        if b.contains(ToolCapability::ExecuteCargoTests) {
            assert(nb[0] == e);
        }
    }
    assert(na.contains(r) == a.contains(ToolCapability::ReadFile)) by {
        if na.contains(r) {
            let i = choose|i: int| 0 <= i < na.len() && na[i] == r;
        }
        if a.contains(ToolCapability::ReadFile) {
            let k = if a.contains(ToolCapability::ExecuteCargoTests) { 1int } else { 0int };
            assert(na[k] == r);
        }
    }
    assert(nb.contains(r) == b.contains(ToolCapability::ReadFile)) by {
        if nb.contains(r) {
            let i = choose|i: int| 0 <= i < nb.len() && nb[i] == r;
        }
        if b.contains(ToolCapability::ReadFile) {
            let k = if b.contains(ToolCapability::ExecuteCargoTests) { 1int } else { 0int };
            assert(nb[k] == r);
        }
    }
    assert(na.contains(w) == a.contains(ToolCapability::WriteFile)) by {
        if na.contains(w) {
            let i = choose|i: int| 0 <= i < na.len() && na[i] == w;
        }
        if a.contains(ToolCapability::WriteFile) {
            assert(na[na.len() - 1] == w);
        }
    }
    assert(nb.contains(w) == b.contains(ToolCapability::WriteFile)) by {
        if nb.contains(w) {
            let i = choose|i: int| 0 <= i < nb.len() && nb[i] == w;
        }
        if b.contains(ToolCapability::WriteFile) {
            assert(nb[nb.len() - 1] == w);
        }
    }
    assert forall|c: ToolCapability| a.contains(c) == b.contains(c) by {
        match c {
            ToolCapability::ReadFile => {},
            ToolCapability::WriteFile => {},
            ToolCapability::ExecuteCargoTests => {},
        }
    }
    assert(a =~= b);
}

/// Whether a manifest's scope sets can be listed in order (as the scopes of
/// any manifest held in memory can).
pub open spec fn scopes_listable(m: ScopeManifestView) -> bool {
    &&& exists|l: Seq<PathScopeView>| strictly_sorted(l) && l.to_set() == m.read_scopes
    &&& exists|l: Seq<PathScopeView>| strictly_sorted(l) && l.to_set() == m.write_scopes
}

spec fn tail_budget(m: ScopeManifestView) -> Seq<char> {
    ",\"step_budget\":"@ + (decimal(m.step_budget as nat) + "}"@)
}

spec fn tail_write(m: ScopeManifestView) -> Seq<char> {
    ",\"write_scopes\":"@ + (scopes_json(sorted_scope_list(m.write_scopes)) + tail_budget(m))
}

spec fn tail_read(m: ScopeManifestView) -> Seq<char> {
    ",\"read_scopes\":"@ + (scopes_json(sorted_scope_list(m.read_scopes)) + tail_write(m))
}

spec fn tail_caps(m: ScopeManifestView) -> Seq<char> {
    ",\"allowed_capabilities\":"@ + (json_string_array(
        sorted_capability_names(m.allowed_capabilities),
    ) + tail_read(m))
}

spec fn tail_env(m: ScopeManifestView) -> Seq<char> {
    ",\"environment\":"@ + (json_string(environment_wire_name(m.environment)) + tail_caps(m))
}

proof fn lemma_manifest_parts(m: ScopeManifestView)
    ensures
        canonical_manifest_json(m) == "{\"manifest_id\":"@ + (json_string(m.manifest_id) + tail_env(m)),
{
    assert(canonical_manifest_json(m) =~= "{\"manifest_id\":"@ + (json_string(m.manifest_id)
        + tail_env(m)));
}

proof fn lemma_budget_tail_injective(m1: ScopeManifestView, m2: ScopeManifestView)
    requires
        tail_budget(m1) == tail_budget(m2),
    ensures
        m1.step_budget == m2.step_budget,
{
    let d1 = decimal(m1.step_budget as nat);
    let d2 = decimal(m2.step_budget as nat);
    lemma_strip_prefix(",\"step_budget\":"@, d1 + "}"@, d2 + "}"@);
    reveal_strlit("}");
    assert("}"@.len() == 1);
    assert(d1 =~= (d1 + "}"@).subrange(0, (d1 + "}"@).len() - 1));
    assert(d2 =~= (d2 + "}"@).subrange(0, (d2 + "}"@).len() - 1));
    lemma_decimal_injective(m1.step_budget as nat, m2.step_budget as nat);
}

proof fn lemma_scope_tails_injective(m1: ScopeManifestView, m2: ScopeManifestView)
    requires
        scopes_listable(m1),
        scopes_listable(m2),
        tail_read(m1) == tail_read(m2),
    ensures
        m1.read_scopes == m2.read_scopes,
        m1.write_scopes == m2.write_scopes,
        m1.step_budget == m2.step_budget,
{
    let rd1 = sorted_scope_list(m1.read_scopes);
    let rd2 = sorted_scope_list(m2.read_scopes);
    let wr1 = sorted_scope_list(m1.write_scopes);
    let wr2 = sorted_scope_list(m2.write_scopes);
    lemma_strip_prefix(",\"read_scopes\":"@, scopes_json(rd1) + tail_write(m1), scopes_json(rd2) + tail_write(m2));
    lemma_scopes_json_injective(rd1, rd2, tail_write(m1), tail_write(m2));
    lemma_strip_prefix(",\"write_scopes\":"@, scopes_json(wr1) + tail_budget(m1), scopes_json(wr2) + tail_budget(m2));
    lemma_scopes_json_injective(wr1, wr2, tail_budget(m1), tail_budget(m2));
    lemma_budget_tail_injective(m1, m2);
    assert(rd1.to_set() == m1.read_scopes);
    assert(rd2.to_set() == m2.read_scopes);
    assert(wr1.to_set() == m1.write_scopes);
    assert(wr2.to_set() == m2.write_scopes);
}

/// Law: the canonical form names the manifest. Two manifests with the same
/// canonical JSON have the same identifier, environment, granted
/// capabilities, read and write scopes, and step budget; so equal digests
/// would take a SHA-256 collision.
pub proof fn lemma_canonical_form_names_the_manifest(m1: ScopeManifestView, m2: ScopeManifestView)
    requires
        scopes_listable(m1),
        scopes_listable(m2),
        canonical_manifest_json(m1) == canonical_manifest_json(m2),
    ensures
        m1 == m2,
{
    lemma_manifest_parts(m1);
    lemma_manifest_parts(m2);
    lemma_strip_prefix(
        "{\"manifest_id\":"@,
        json_string(m1.manifest_id) + tail_env(m1),
        json_string(m2.manifest_id) + tail_env(m2),
    );
    lemma_json_string_injective(m1.manifest_id, m2.manifest_id, tail_env(m1), tail_env(m2));
    let e1 = environment_wire_name(m1.environment);
    let e2 = environment_wire_name(m2.environment);
    lemma_strip_prefix(",\"environment\":"@, json_string(e1) + tail_caps(m1), json_string(e2) + tail_caps(m2));
    lemma_json_string_injective(e1, e2, tail_caps(m1), tail_caps(m2));
    lemma_environment_names_distinct(m1.environment, m2.environment);
    let n1 = sorted_capability_names(m1.allowed_capabilities);
    let n2 = sorted_capability_names(m2.allowed_capabilities);
    lemma_strip_prefix(
        ",\"allowed_capabilities\":"@,
        json_string_array(n1) + tail_read(m1),
        json_string_array(n2) + tail_read(m2),
    );
    lemma_json_string_array_injective(n1, n2, tail_read(m1), tail_read(m2));
    lemma_capability_names_determine_grants(m1.allowed_capabilities, m2.allowed_capabilities);
    lemma_scope_tails_injective(m1, m2);
}

} // verus!
