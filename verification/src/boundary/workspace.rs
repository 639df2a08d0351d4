//! The workspace root, and the resolution of a workspace-relative path to a
//! host path that cannot escape the root through symbolic links.
//!
//! Resolution walks the path one component at a time and asks the host file
//! system about each prefix. The walk is a state machine: [`AnchorResolution`]
//! says what to look at next ([`AnchorAction`]), the caller looks and reports
//! what it saw ([`AnchorEvent`]).

use vstd::prelude::*;
use crate::boundary::errors::{BoundaryError, BoundaryErrorView};
use crate::boundary::types::{
    clone_strings, str_contains_char, string_views, valid_component, IsolatedPath,
};

verus! {

/// An absolute host path, as the list of its components below `/`.
#[derive(Debug)]
pub struct HostPath {
    components: Vec<String>,
}

impl View for HostPath {
    type V = Seq<Seq<char>>;

    closed spec fn view(&self) -> Seq<Seq<char>> {
        string_views(self.components@)
    }
}

impl HostPath {
    pub fn from_components(components: Vec<String>) -> (r: HostPath)
        ensures
            r@ == string_views(components@),
    {
        HostPath { components }
    }

    pub fn components(&self) -> (r: &Vec<String>)
        ensures
            string_views(r@) == self@,
    {
        &self.components
    }

    pub fn duplicate(&self) -> (r: HostPath)
        ensures
            r@ == self@,
    {
        HostPath { components: clone_strings(&self.components) }
    }

    /// Whether this path lies at or below `base` (component-wise prefix).
    pub fn starts_with(&self, base: &HostPath) -> (r: bool)
        ensures
            r == base@.is_prefix_of(self@),
    {
        let n = base.components.len();
        if n > self.components.len() {
            return false;
        }
        let mut i: usize = 0;
        while i < n
            invariant
                n == base.components@.len() <= self.components@.len(),
                i <= n,
                forall|j: int| 0 <= j < i ==> base@[j] == self@[j],
            decreases n - i,
        {
            if base.components[i] != self.components[i] {
                assert(base@[i as int] != self@[i as int]);
                return false;
            }
            i = i + 1;
        }
        true
    }
}

/// Where a symbolic link points: an absolute path, or one relative to the
/// link's directory; `.` and `..` components are kept as written.
#[derive(Debug)]
pub struct LinkTarget {
    pub absolute: bool,
    pub components: Vec<String>,
}

/// The root every resolved path must stay under; given in canonical form.
#[derive(Debug)]
pub struct WorkspaceRoot {
    root_path: HostPath,
}

impl View for WorkspaceRoot {
    type V = Seq<Seq<char>>;

    closed spec fn view(&self) -> Seq<Seq<char>> {
        self.root_path@
    }
}

/// A canonical root names plain entries only: no empty, `.` or `..` components.
pub open spec fn canonical_components(cs: Seq<Seq<char>>) -> bool {
    forall|i: int| 0 <= i < cs.len() ==> valid_component(#[trigger] cs[i])
}

impl WorkspaceRoot {
    /// Takes the canonicalized workspace directory. Refuses a path that is not
    /// in canonical form.
    pub fn try_new(canonical_root: HostPath) -> (r: Result<WorkspaceRoot, BoundaryError>)
        ensures
            canonical_components(canonical_root@) ==> (r matches Ok(w) && w@ == canonical_root@),
            !canonical_components(canonical_root@) ==> (r matches Err(e) && e@
                == BoundaryErrorView::InvalidPathSpecification),
    {
        let mut i: usize = 0;
        while i < canonical_root.components.len()
            invariant
                i <= canonical_root.components@.len(),
                forall|j: int| 0 <= j < i ==> valid_component(#[trigger] canonical_root@[j]),
            decreases canonical_root.components@.len() - i,
        {
            if !plain_component(&canonical_root.components[i]) {
                assert(!valid_component(canonical_root@[i as int]));
                return Err(BoundaryError::InvalidPathSpecification);
            }
            i = i + 1;
        }
        Ok(WorkspaceRoot { root_path: canonical_root })
    }

    pub fn root_path(&self) -> (r: &HostPath)
        ensures
            r@ == self@,
    {
        &self.root_path
    }

    /// Starts resolving `relative` under the root.
    pub fn begin_resolution(&self, relative: &IsolatedPath) -> (r: (AnchorResolution, AnchorAction))
        ensures
            (r.0@, r.1@) == anchor_advance(anchor_initial(self@, relative@)),
    {
        let res = AnchorResolution {
            root: self.root_path.duplicate(),
            requested: relative.to_canonical_components(),
            next: 0,
            current: self.root_path.duplicate(),
            stage: AnchorStage::Walking,
        };
        res.advance()
    }
}

fn plain_component(s: &String) -> (r: bool)
    ensures
        r == valid_component(s@),
{
    let t = s.as_str();
    if t.is_empty() || str_contains_char(t, '/') || str_contains_char(t, '\0') {
        return false;
    }
    let dot = ".".to_owned();
    let dot_dot = "..".to_owned();
    proof {
        reveal_strlit(".");
        reveal_strlit("..");
        assert("."@ =~= crate::boundary::types::dot());
        assert(".."@ =~= crate::boundary::types::dot_dot());
    }
    !(*s == dot) && !(*s == dot_dot)
}

// ---------------------------------------------------------------- the walk

/// What the caller reports after carrying out an [`AnchorAction`].
#[derive(Debug)]
pub enum AnchorEvent {
    /// `Probe`: the entry is a symbolic link.
    EntryIsSymlink,
    /// `Probe`: the entry exists and is not a symbolic link.
    EntryIsNotSymlink,
    /// `Probe`: there is no such entry.
    EntryMissing,
    /// `Probe`: the entry could not be examined.
    ProbeFailed(String),
    /// `ReadLink`: the link's target.
    LinkRead(LinkTarget),
    /// `ReadLink`: the link could not be read.
    LinkReadFailed(String),
    /// `Canonicalize`: the canonical form of the path.
    Canonicalized(HostPath),
    /// `Canonicalize`: the path could not be canonicalized.
    CanonicalizeFailed,
    /// `CheckExists`: whether the path exists.
    Exists(bool),
}

/// What the resolution needs done next.
#[derive(Debug)]
pub enum AnchorAction {
    /// Examine the entry at this path without following a final link.
    Probe(HostPath),
    /// Read the symbolic link at this path.
    ReadLink(HostPath),
    /// Canonicalize this path (it may hold `.` and `..` components).
    Canonicalize(HostPath),
    /// Find out whether this path exists.
    CheckExists(HostPath),
    /// The resolution is over.
    Done(Result<HostPath, BoundaryError>),
}

enum AnchorStage {
    Walking,
    AwaitProbe,
    AwaitLink,
    AwaitLinkCanonical,
    AwaitExists,
    AwaitFinalCanonical,
    Finished,
}

/// A resolution in progress.
pub struct AnchorResolution {
    root: HostPath,
    requested: Vec<String>,
    next: usize,
    current: HostPath,
    stage: AnchorStage,
}

pub enum AnchorStageView {
    Walking,
    AwaitProbe,
    AwaitLink,
    AwaitLinkCanonical,
    AwaitExists,
    AwaitFinalCanonical,
    Finished,
}

pub struct AnchorView {
    pub root: Seq<Seq<char>>,
    pub requested: Seq<Seq<char>>,
    pub next: nat,
    pub current: Seq<Seq<char>>,
    pub stage: AnchorStageView,
}

pub enum AnchorEventView {
    EntryIsSymlink,
    EntryIsNotSymlink,
    EntryMissing,
    ProbeFailed(Seq<char>),
    LinkRead { absolute: bool, components: Seq<Seq<char>> },
    LinkReadFailed(Seq<char>),
    Canonicalized(Seq<Seq<char>>),
    CanonicalizeFailed,
    Exists(bool),
}

pub enum AnchorActionView {
    Probe(Seq<Seq<char>>),
    ReadLink(Seq<Seq<char>>),
    Canonicalize(Seq<Seq<char>>),
    CheckExists(Seq<Seq<char>>),
    Done(Result<Seq<Seq<char>>, BoundaryErrorView>),
}

impl View for AnchorResolution {
    type V = AnchorView;

    closed spec fn view(&self) -> AnchorView {
        AnchorView {
            root: self.root@,
            requested: string_views(self.requested@),
            next: self.next as nat,
            current: self.current@,
            stage: match self.stage {
                AnchorStage::Walking => AnchorStageView::Walking,
                AnchorStage::AwaitProbe => AnchorStageView::AwaitProbe,
                AnchorStage::AwaitLink => AnchorStageView::AwaitLink,
                AnchorStage::AwaitLinkCanonical => AnchorStageView::AwaitLinkCanonical,
                AnchorStage::AwaitExists => AnchorStageView::AwaitExists,
                AnchorStage::AwaitFinalCanonical => AnchorStageView::AwaitFinalCanonical,
                AnchorStage::Finished => AnchorStageView::Finished,
            },
        }
    }
}

impl View for AnchorEvent {
    type V = AnchorEventView;

    open spec fn view(&self) -> AnchorEventView {
        match self {
            AnchorEvent::EntryIsSymlink => AnchorEventView::EntryIsSymlink,
            AnchorEvent::EntryIsNotSymlink => AnchorEventView::EntryIsNotSymlink,
            AnchorEvent::EntryMissing => AnchorEventView::EntryMissing,
            AnchorEvent::ProbeFailed(m) => AnchorEventView::ProbeFailed(m@),
            AnchorEvent::LinkRead(t) => AnchorEventView::LinkRead {
                absolute: t.absolute,
                components: string_views(t.components@),
            },
            AnchorEvent::LinkReadFailed(m) => AnchorEventView::LinkReadFailed(m@),
            AnchorEvent::Canonicalized(p) => AnchorEventView::Canonicalized(p@),
            AnchorEvent::CanonicalizeFailed => AnchorEventView::CanonicalizeFailed,
            AnchorEvent::Exists(b) => AnchorEventView::Exists(*b),
        }
    }
}

impl View for AnchorAction {
    type V = AnchorActionView;

    open spec fn view(&self) -> AnchorActionView {
        match self {
            AnchorAction::Probe(p) => AnchorActionView::Probe(p@),
            AnchorAction::ReadLink(p) => AnchorActionView::ReadLink(p@),
            AnchorAction::Canonicalize(p) => AnchorActionView::Canonicalize(p@),
            AnchorAction::CheckExists(p) => AnchorActionView::CheckExists(p@),
            AnchorAction::Done(Ok(p)) => AnchorActionView::Done(Ok(p@)),
            AnchorAction::Done(Err(e)) => AnchorActionView::Done(Err(e@)),
        }
    }
}

pub open spec fn anchor_initial(root: Seq<Seq<char>>, requested: Seq<Seq<char>>) -> AnchorView {
    AnchorView { root, requested, next: 0, current: root, stage: AnchorStageView::Walking }
}

/// Moves to the next component: descend into it and probe it, or, when every
/// component has been walked, ask whether the result exists.
pub open spec fn anchor_advance(s: AnchorView) -> (AnchorView, AnchorActionView) {
    if s.next < s.requested.len() {
        let current = s.current.push(s.requested[s.next as int]);
        (
            AnchorView { next: s.next + 1, current, stage: AnchorStageView::AwaitProbe, ..s },
            AnchorActionView::Probe(current),
        )
    } else {
        (
            AnchorView { stage: AnchorStageView::AwaitExists, ..s },
            AnchorActionView::CheckExists(s.current),
        )
    }
}

/// The directory a relative link is read from: the link's parent (the root
/// when the link path has no parent).
pub open spec fn link_directory(s: AnchorView) -> Seq<Seq<char>> {
    if s.current.len() > 0 {
        s.current.drop_last()
    } else {
        s.root
    }
}

pub open spec fn anchor_finish(s: AnchorView, r: Result<Seq<Seq<char>>, BoundaryErrorView>) -> (
    AnchorView,
    AnchorActionView,
) {
    (AnchorView { stage: AnchorStageView::Finished, ..s }, AnchorActionView::Done(r))
}

/// Which events each stage takes.
pub open spec fn anchor_accepts(s: AnchorView, e: AnchorEventView) -> bool {
    match s.stage {
        AnchorStageView::AwaitProbe => e is EntryIsSymlink || e is EntryIsNotSymlink
            || e is EntryMissing || e is ProbeFailed,
        AnchorStageView::AwaitLink => e is LinkRead || e is LinkReadFailed,
        AnchorStageView::AwaitLinkCanonical => e is Canonicalized || e is CanonicalizeFailed,
        AnchorStageView::AwaitExists => e is Exists,
        AnchorStageView::AwaitFinalCanonical => e is Canonicalized || e is CanonicalizeFailed,
        _ => false,
    }
}

/// One step of the walk.
///
/// A probed entry that is a link is read; its target, taken relative to the
/// link's directory unless absolute, is canonicalized, and the walk goes on
/// from there only if that lies under the root. A missing entry ends the
/// following of links, but the walk goes on. At the end, an existing result is
/// canonicalized once more and must still lie under the root.
pub open spec fn anchor_step(s: AnchorView, e: AnchorEventView) -> (AnchorView, AnchorActionView) {
    match s.stage {
        AnchorStageView::AwaitProbe => match e {
            AnchorEventView::EntryIsSymlink => (
                AnchorView { stage: AnchorStageView::AwaitLink, ..s },
                AnchorActionView::ReadLink(s.current),
            ),
            AnchorEventView::EntryMissing => if s.root.is_prefix_of(s.current) {
                anchor_advance(s)
            } else {
                anchor_finish(s, Err(BoundaryErrorView::SymlinkEscalation))
            },
            AnchorEventView::ProbeFailed(m) => anchor_finish(
                s,
                Err(BoundaryErrorView::StorageAccessError(m)),
            ),
            _ => anchor_advance(s),
        },
        AnchorStageView::AwaitLink => match e {
            AnchorEventView::LinkRead { absolute, components } => {
                let target = if absolute {
                    components
                } else {
                    link_directory(s) + components
                };
                (
                    AnchorView { stage: AnchorStageView::AwaitLinkCanonical, ..s },
                    AnchorActionView::Canonicalize(target),
                )
            },
            AnchorEventView::LinkReadFailed(m) => anchor_finish(
                s,
                Err(BoundaryErrorView::StorageAccessError(m)),
            ),
            _ => anchor_finish(s, Err(BoundaryErrorView::SymlinkEscalation)),
        },
        AnchorStageView::AwaitLinkCanonical => match e {
            AnchorEventView::Canonicalized(p) => if s.root.is_prefix_of(p) {
                anchor_advance(AnchorView { current: p, ..s })
            } else {
                anchor_finish(s, Err(BoundaryErrorView::SymlinkEscalation))
            },
            _ => anchor_finish(s, Err(BoundaryErrorView::SymlinkEscalation)),
        },
        AnchorStageView::AwaitExists => match e {
            AnchorEventView::Exists(true) => (
                AnchorView { stage: AnchorStageView::AwaitFinalCanonical, ..s },
                AnchorActionView::Canonicalize(s.current),
            ),
            _ => anchor_finish(s, Ok(s.current)),
        },
        AnchorStageView::AwaitFinalCanonical => match e {
            AnchorEventView::Canonicalized(p) => if s.root.is_prefix_of(p) {
                anchor_finish(s, Ok(s.current))
            } else {
                anchor_finish(s, Err(BoundaryErrorView::SymlinkEscalation))
            },
            _ => anchor_finish(s, Err(BoundaryErrorView::SymlinkEscalation)),
        },
        _ => anchor_finish(s, Err(BoundaryErrorView::SymlinkEscalation)),
    }
}

/// What holds of every state of the walk: the path reached lies under the root.
pub open spec fn anchor_invariant(s: AnchorView) -> bool {
    s.root.is_prefix_of(s.current)
}

/// Law: a symbolic link met on the walk is followed to where it points. An
/// absolute target is taken as it stands; a relative one is read from the
/// directory that holds the link (the root when the link is the host root
/// itself). The walk then asks for the canonical form of that path.
pub proof fn lemma_links_are_read_from_their_directory(
    s: AnchorView,
    absolute: bool,
    target: Seq<Seq<char>>,
)
    requires
        s.stage == AnchorStageView::AwaitLink,
    ensures
        anchor_step(s, AnchorEventView::LinkRead { absolute, components: target }).0.stage
            == AnchorStageView::AwaitLinkCanonical,
        absolute ==> anchor_step(s, AnchorEventView::LinkRead { absolute, components: target }).1
            == AnchorActionView::Canonicalize(target),
        !absolute && s.current.len() > 0 ==> anchor_step(
            s,
            AnchorEventView::LinkRead { absolute, components: target },
        ).1 == AnchorActionView::Canonicalize(s.current.subrange(0, s.current.len() - 1) + target),
        !absolute && s.current.len() == 0 ==> anchor_step(
            s,
            AnchorEventView::LinkRead { absolute, components: target },
        ).1 == AnchorActionView::Canonicalize(s.root + target),
{
}

/// Law: what each report does to the walk. An entry that is not a link, or
/// a missing one under the root, leads into the next requested component (or,
/// with none left, to asking whether the path exists); a link is read. A
/// link's canonical target under the root becomes the path walked, and the
/// walk goes on from it; one outside the root, or one that cannot be
/// canonicalized, is an escalation. A path that does not exist is the result
/// as walked; one that exists is the result only if its canonical form is
/// under the root. Failing to look at an entry or a link is a storage error
/// carrying its message.
pub proof fn lemma_walk_follows_the_reports(s: AnchorView, e: AnchorEventView)
    requires
        anchor_accepts(s, e),
    ensures
        s.stage == AnchorStageView::AwaitProbe && (e == AnchorEventView::EntryIsNotSymlink || (e
            == AnchorEventView::EntryMissing && s.root.is_prefix_of(s.current))) ==> {
            &&& s.next < s.requested.len() ==> anchor_step(s, e).1 == AnchorActionView::Probe(
                s.current.push(s.requested[s.next as int]),
            ) && anchor_step(s, e).0.next == s.next + 1
            &&& s.next >= s.requested.len() ==> anchor_step(s, e).1 == AnchorActionView::CheckExists(
                s.current,
            )
        },
        s.stage == AnchorStageView::AwaitProbe && e == AnchorEventView::EntryIsSymlink ==> anchor_step(
            s,
            e,
        ).1 == AnchorActionView::ReadLink(s.current),
        e matches AnchorEventView::ProbeFailed(m) ==> anchor_step(s, e).1 == AnchorActionView::Done(
            Err(BoundaryErrorView::StorageAccessError(m)),
        ),
        e matches AnchorEventView::LinkReadFailed(m) ==> anchor_step(s, e).1 == AnchorActionView::Done(
            Err(BoundaryErrorView::StorageAccessError(m)),
        ),
        e == AnchorEventView::CanonicalizeFailed ==> anchor_step(s, e).1 == AnchorActionView::Done(
            Err(BoundaryErrorView::SymlinkEscalation),
        ),
        e is Canonicalized && s.stage == AnchorStageView::AwaitLinkCanonical ==> if s.root.is_prefix_of(
            e->Canonicalized_0,
        ) {
            &&& s.next < s.requested.len() ==> anchor_step(s, e).1 == AnchorActionView::Probe(
                e->Canonicalized_0.push(s.requested[s.next as int]),
            )
            &&& s.next >= s.requested.len() ==> anchor_step(s, e).1
                == AnchorActionView::CheckExists(e->Canonicalized_0)
        } else {
            anchor_step(s, e).1 == AnchorActionView::Done(Err(BoundaryErrorView::SymlinkEscalation))
        },
        s.stage == AnchorStageView::AwaitExists && e == AnchorEventView::Exists(false) ==> anchor_step(
            s,
            e,
        ).1 == AnchorActionView::Done(Ok(s.current)),
        s.stage == AnchorStageView::AwaitExists && e == AnchorEventView::Exists(true) ==> anchor_step(
            s,
            e,
        ).1 == AnchorActionView::Canonicalize(s.current),
        e is Canonicalized && s.stage == AnchorStageView::AwaitFinalCanonical ==> anchor_step(s, e).1
            == AnchorActionView::Done(
            if s.root.is_prefix_of(e->Canonicalized_0) {
                Ok(s.current)
            } else {
                Err(BoundaryErrorView::SymlinkEscalation)
            },
        ),
        anchor_step(s, e).1 matches AnchorActionView::Done(Ok(r)) ==> r == s.current,
{
}

/// Law: the walk never leaves the root. From any state under the root, a step
/// leads to a state under the root, and a successful resolution yields a path
/// under the root.
pub proof fn lemma_anchor_stays_under_root(s: AnchorView, e: AnchorEventView)
    requires
        anchor_invariant(s),
    ensures
        anchor_invariant(anchor_step(s, e).0),
        anchor_step(s, e).1 matches AnchorActionView::Done(Ok(p)) ==> s.root.is_prefix_of(p),
        anchor_step(s, e).0.root == s.root,
{
    lemma_advance_stays_under_root(s);
    match s.stage {
        AnchorStageView::AwaitLinkCanonical => match e {
            AnchorEventView::Canonicalized(p) => {
                if s.root.is_prefix_of(p) {
                    lemma_advance_stays_under_root(AnchorView { current: p, ..s });
                }
            },
            _ => {},
        },
        _ => {},
    }
}

proof fn lemma_advance_stays_under_root(s: AnchorView)
    requires
        anchor_invariant(s),
    ensures
        anchor_invariant(anchor_advance(s).0),
        anchor_advance(s).0.root == s.root,
{
    if s.next < s.requested.len() {
        let c = s.current.push(s.requested[s.next as int]);
        assert forall|i: int| 0 <= i < s.root.len() implies s.root[i] == c[i] by {
            assert(s.current[i] == s.root[i]);
        }
    }
}

/// Law: the walk starts under the root.
pub proof fn lemma_anchor_starts_under_root(root: Seq<Seq<char>>, requested: Seq<Seq<char>>)
    ensures
        anchor_invariant(anchor_initial(root, requested)),
        anchor_invariant(anchor_advance(anchor_initial(root, requested)).0),
{
    assert(root.is_prefix_of(root));
    lemma_advance_stays_under_root(anchor_initial(root, requested));
}

impl AnchorResolution {
    fn advance(self) -> (r: (AnchorResolution, AnchorAction))
        ensures
            (r.0@, r.1@) == anchor_advance(self@),
    {
        let mut s = self;
        if s.next < s.requested.len() {
            let comp = s.requested[s.next].clone();
            s.current.components.push(comp);
            s.next = s.next + 1;
            s.stage = AnchorStage::AwaitProbe;
            let probe = s.current.duplicate();
            proof {
                assert(s.current@ =~= self.current@.push(self@.requested[self.next as int]));
            }
            (s, AnchorAction::Probe(probe))
        } else {
            s.stage = AnchorStage::AwaitExists;
            let p = s.current.duplicate();
            (s, AnchorAction::CheckExists(p))
        }
    }

    fn finish(self, r: Result<HostPath, BoundaryError>) -> (out: (AnchorResolution, AnchorAction))
        ensures
            out.0@ == anchor_finish(self@, Err(BoundaryErrorView::SymlinkEscalation)).0,
            out.1 == AnchorAction::Done(r),
    {
        let mut s = self;
        s.stage = AnchorStage::Finished;
        (s, AnchorAction::Done(r))
    }

    /// Whether the walk is waiting for `event`'s kind of report.
    pub fn accepts(&self, event: &AnchorEvent) -> (r: bool)
        ensures
            r == anchor_accepts(self@, event@),
    {
        match self.stage {
            AnchorStage::AwaitProbe => match event {
                AnchorEvent::EntryIsSymlink | AnchorEvent::EntryIsNotSymlink
                | AnchorEvent::EntryMissing | AnchorEvent::ProbeFailed(_) => true,
                _ => false,
            },
            AnchorStage::AwaitLink => match event {
                AnchorEvent::LinkRead(_) | AnchorEvent::LinkReadFailed(_) => true,
                _ => false,
            },
            AnchorStage::AwaitLinkCanonical | AnchorStage::AwaitFinalCanonical => match event {
                AnchorEvent::Canonicalized(_) | AnchorEvent::CanonicalizeFailed => true,
                _ => false,
            },
            AnchorStage::AwaitExists => match event {
                AnchorEvent::Exists(_) => true,
                _ => false,
            },
            _ => false,
        }
    }

    /// Takes the report for the last action and says what to do next
    /// (see [`anchor_step`]).
    pub fn step(self, event: AnchorEvent) -> (r: (AnchorResolution, AnchorAction))
        requires
            anchor_accepts(self@, event@),
        ensures
            (r.0@, r.1@) == anchor_step(self@, event@),
    {
        match self.stage {
            AnchorStage::AwaitProbe => match event {
                AnchorEvent::EntryIsSymlink => {
                    let mut s = self;
                    s.stage = AnchorStage::AwaitLink;
                    let p = s.current.duplicate();
                    (s, AnchorAction::ReadLink(p))
                },
                AnchorEvent::EntryMissing => {
                    if self.current.starts_with(&self.root) {
                        self.advance()
                    } else {
                        self.finish(Err(BoundaryError::SymlinkEscalation))
                    }
                },
                AnchorEvent::ProbeFailed(m) => self.finish(Err(BoundaryError::StorageAccessError(m))),
                _ => self.advance(),
            },
            AnchorStage::AwaitLink => match event {
                AnchorEvent::LinkRead(t) => {
                    let mut s = self;
                    let target = if t.absolute {
                        HostPath::from_components(t.components)
                    } else {
                        let mut base = if s.current.components.len() > 0 {
                            let mut b = clone_strings(&s.current.components);
                            let ghost b0 = b@;
                            b.pop();
                            assert(string_views(b@) =~= string_views(b0).drop_last());
                            b
                        } else {
                            clone_strings(&s.root.components)
                        };
                        let ghost dir = string_views(base@);
                        let mut extra = t.components;
                        let ghost e0 = string_views(extra@);
                        let ghost b1 = base@;
                        let ghost x1 = extra@;
                        base.append(&mut extra);
                        proof {
                            assert(base@ =~= b1 + x1);
                            assert(string_views(base@) =~= dir + e0);
                        }
                        HostPath::from_components(base)
                    };
                    s.stage = AnchorStage::AwaitLinkCanonical;
                    (s, AnchorAction::Canonicalize(target))
                },
                AnchorEvent::LinkReadFailed(m) => self.finish(
                    Err(BoundaryError::StorageAccessError(m)),
                ),
                _ => self.finish(Err(BoundaryError::SymlinkEscalation)),
            },
            AnchorStage::AwaitLinkCanonical => match event {
                AnchorEvent::Canonicalized(p) => {
                    if p.starts_with(&self.root) {
                        let mut s = self;
                        s.current = p;
                        s.advance()
                    } else {
                        self.finish(Err(BoundaryError::SymlinkEscalation))
                    }
                },
                _ => self.finish(Err(BoundaryError::SymlinkEscalation)),
            },
            AnchorStage::AwaitExists => match event {
                AnchorEvent::Exists(true) => {
                    let mut s = self;
                    s.stage = AnchorStage::AwaitFinalCanonical;
                    let p = s.current.duplicate();
                    (s, AnchorAction::Canonicalize(p))
                },
                _ => {
                    let p = self.current.duplicate();
                    self.finish(Ok(p))
                },
            },
            AnchorStage::AwaitFinalCanonical => match event {
                AnchorEvent::Canonicalized(p) => {
                    if p.starts_with(&self.root) {
                        let r = self.current.duplicate();
                        self.finish(Ok(r))
                    } else {
                        self.finish(Err(BoundaryError::SymlinkEscalation))
                    }
                },
                _ => self.finish(Err(BoundaryError::SymlinkEscalation)),
            },
            _ => self.finish(Err(BoundaryError::SymlinkEscalation)),
        }
    }
}

} // verus!
