//! Carrying out one validated invocation: the order of the host operations
//! and what each of their results leads to.
//!
//! The run is a state machine: [`Execution`] says what to do next on the host
//! ([`ExecutionAction`]), the caller does it and reports what came of it
//! ([`ExecutionEvent`]). A read resolves its path, checks that it names a
//! file and reads it. A write resolves its path, refuses an existing
//! directory, creates a fresh scratch file beside the target, writes the
//! content to it, syncs it, and renames it over the target; a failed rename
//! removes the scratch file. A test run starts the test runner and reports
//! what it printed.

use vstd::prelude::*;
use crate::boundary::audit::uuid_v4_text;
use crate::boundary::errors::{BoundaryError, BoundaryErrorView};
use crate::boundary::executor::NarrowExecutionAdapter;
use crate::boundary::tool::{InvocationKindView, ValidatedToolInvocationKind};
use crate::boundary::types::{IsolatedPath, TestSuiteName};
use crate::boundary::workspace::HostPath;

verus! {

/// What the caller reports after carrying out an [`ExecutionAction`].
#[derive(Debug)]
pub enum ExecutionEvent {
    /// `Resolve`: the host path the workspace path resolved to, or why not.
    Resolved(Result<HostPath, BoundaryError>),
    /// `CheckIsFile`, `CheckExists`, `CheckIsDirectory`: the answer, or why
    /// the path could not be examined.
    Checked(Result<bool, BoundaryError>),
    /// `CreateNew`, `WriteAll`, `Sync`, `Rename`, `RemoveFile`: whether the
    /// operation succeeded.
    Done(Result<(), BoundaryError>),
    /// `ReadFile`, `RunTests`: the text read or printed, or why there is none.
    Output(Result<String, BoundaryError>),
}

/// What the run needs done next on the host.
#[derive(Debug)]
pub enum ExecutionAction {
    /// Resolve this workspace path to a host path under the root.
    Resolve(IsolatedPath),
    /// Find out whether this path is a regular file.
    CheckIsFile(HostPath),
    /// Read this file as text.
    ReadFile(HostPath),
    /// Find out whether this path exists.
    CheckExists(HostPath),
    /// Find out whether this path is a directory.
    CheckIsDirectory(HostPath),
    /// Create this file; it must not exist yet.
    CreateNew(HostPath),
    /// Write this text to the file just created.
    WriteAll(String),
    /// Flush the file just written to storage, and close it.
    Sync,
    /// Rename the file at `from` to `to`, replacing what is there.
    Rename { from: HostPath, to: HostPath },
    /// Remove this file.
    RemoveFile(HostPath),
    /// Run the test suite (see [`NarrowExecutionAdapter::test_command`]).
    RunTests(TestSuiteName),
    /// The run is over, with this result.
    Finish(Result<String, BoundaryError>),
}

enum ExecutionStage {
    ResolveRead,
    CheckRead { target: HostPath },
    Read,
    ResolveWrite { content: String },
    ProbeWrite { target: HostPath, content: String },
    CheckWrite { target: HostPath, content: String },
    CreateTemp { target: HostPath, temp: HostPath, content: String },
    WriteTemp { target: HostPath, temp: HostPath },
    SyncTemp { target: HostPath, temp: HostPath },
    RenameTemp { target: HostPath, temp: HostPath },
    RemoveTemp { error: BoundaryError },
    RunTests,
    Finished,
}

/// A run in progress.
pub struct Execution {
    stage: ExecutionStage,
}

pub enum ExecutionStageView {
    ResolveRead,
    CheckRead { target: Seq<Seq<char>> },
    Read,
    ResolveWrite { content: Seq<char> },
    ProbeWrite { target: Seq<Seq<char>>, content: Seq<char> },
    CheckWrite { target: Seq<Seq<char>>, content: Seq<char> },
    CreateTemp { target: Seq<Seq<char>>, temp: Seq<Seq<char>>, content: Seq<char> },
    WriteTemp { target: Seq<Seq<char>>, temp: Seq<Seq<char>> },
    SyncTemp { target: Seq<Seq<char>>, temp: Seq<Seq<char>> },
    RenameTemp { target: Seq<Seq<char>>, temp: Seq<Seq<char>> },
    RemoveTemp { error: BoundaryErrorView },
    RunTests,
    Finished,
}

pub enum ExecutionEventView {
    Resolved(Result<Seq<Seq<char>>, BoundaryErrorView>),
    Checked(Result<bool, BoundaryErrorView>),
    Done(Result<(), BoundaryErrorView>),
    Output(Result<Seq<char>, BoundaryErrorView>),
}

pub enum ExecutionActionView {
    Resolve(Seq<Seq<char>>),
    CheckIsFile(Seq<Seq<char>>),
    ReadFile(Seq<Seq<char>>),
    CheckExists(Seq<Seq<char>>),
    CheckIsDirectory(Seq<Seq<char>>),
    CreateNew(Seq<Seq<char>>),
    WriteAll(Seq<char>),
    Sync,
    Rename { from: Seq<Seq<char>>, to: Seq<Seq<char>> },
    RemoveFile(Seq<Seq<char>>),
    RunTests(Seq<char>),
    Finish(Result<Seq<char>, BoundaryErrorView>),
}

impl View for Execution {
    type V = ExecutionStageView;

    closed spec fn view(&self) -> ExecutionStageView {
        match &self.stage {
            ExecutionStage::ResolveRead => ExecutionStageView::ResolveRead,
            ExecutionStage::CheckRead { target } => ExecutionStageView::CheckRead { target: target@ },
            ExecutionStage::Read => ExecutionStageView::Read,
            ExecutionStage::ResolveWrite { content } => ExecutionStageView::ResolveWrite {
                content: content@,
            },
            ExecutionStage::ProbeWrite { target, content } => ExecutionStageView::ProbeWrite {
                target: target@,
                content: content@,
            },
            ExecutionStage::CheckWrite { target, content } => ExecutionStageView::CheckWrite {
                target: target@,
                content: content@,
            },
            ExecutionStage::CreateTemp { target, temp, content } =>
                ExecutionStageView::CreateTemp { target: target@, temp: temp@, content: content@ },
            ExecutionStage::WriteTemp { target, temp } => ExecutionStageView::WriteTemp {
                target: target@,
                temp: temp@,
            },
            ExecutionStage::SyncTemp { target, temp } => ExecutionStageView::SyncTemp {
                target: target@,
                temp: temp@,
            },
            ExecutionStage::RenameTemp { target, temp } => ExecutionStageView::RenameTemp {
                target: target@,
                temp: temp@,
            },
            ExecutionStage::RemoveTemp { error } => ExecutionStageView::RemoveTemp { error: error@ },
            ExecutionStage::RunTests => ExecutionStageView::RunTests,
            ExecutionStage::Finished => ExecutionStageView::Finished,
        }
    }
}

impl View for ExecutionEvent {
    type V = ExecutionEventView;

    open spec fn view(&self) -> ExecutionEventView {
        match self {
            ExecutionEvent::Resolved(Ok(p)) => ExecutionEventView::Resolved(Ok(p@)),
            ExecutionEvent::Resolved(Err(e)) => ExecutionEventView::Resolved(Err(e@)),
            ExecutionEvent::Checked(Ok(b)) => ExecutionEventView::Checked(Ok(*b)),
            ExecutionEvent::Checked(Err(e)) => ExecutionEventView::Checked(Err(e@)),
            ExecutionEvent::Done(Ok(_)) => ExecutionEventView::Done(Ok(())),
            ExecutionEvent::Done(Err(e)) => ExecutionEventView::Done(Err(e@)),
            ExecutionEvent::Output(Ok(t)) => ExecutionEventView::Output(Ok(t@)),
            ExecutionEvent::Output(Err(e)) => ExecutionEventView::Output(Err(e@)),
        }
    }
}

impl View for ExecutionAction {
    type V = ExecutionActionView;

    open spec fn view(&self) -> ExecutionActionView {
        match self {
            ExecutionAction::Resolve(p) => ExecutionActionView::Resolve(p@),
            ExecutionAction::CheckIsFile(p) => ExecutionActionView::CheckIsFile(p@),
            ExecutionAction::ReadFile(p) => ExecutionActionView::ReadFile(p@),
            ExecutionAction::CheckExists(p) => ExecutionActionView::CheckExists(p@),
            ExecutionAction::CheckIsDirectory(p) => ExecutionActionView::CheckIsDirectory(p@),
            ExecutionAction::CreateNew(p) => ExecutionActionView::CreateNew(p@),
            ExecutionAction::WriteAll(t) => ExecutionActionView::WriteAll(t@),
            ExecutionAction::Sync => ExecutionActionView::Sync,
            ExecutionAction::Rename { from, to } => ExecutionActionView::Rename {
                from: from@,
                to: to@,
            },
            ExecutionAction::RemoveFile(p) => ExecutionActionView::RemoveFile(p@),
            ExecutionAction::RunTests(s) => ExecutionActionView::RunTests(s@),
            ExecutionAction::Finish(Ok(t)) => ExecutionActionView::Finish(Ok(t@)),
            ExecutionAction::Finish(Err(e)) => ExecutionActionView::Finish(Err(e@)),
        }
    }
}

// ---------------------------------------------------------------- the machine

/// The name of a write's scratch file, from its unique part.
pub open spec fn scratch_name(unique: Seq<char>) -> Seq<char> {
    ".tmp-aci-file-"@ + unique
}

/// The scratch file of a write to `target`: an entry of the target's own
/// directory, named by `unique`.
pub open spec fn scratch_path(target: Seq<Seq<char>>, unique: Seq<char>) -> Seq<Seq<char>> {
    target.drop_last().push(scratch_name(unique))
}

pub open spec fn finish(r: Result<Seq<char>, BoundaryErrorView>) -> (ExecutionStageView, ExecutionActionView) {
    (ExecutionStageView::Finished, ExecutionActionView::Finish(r))
}

/// Where a run starts: a read or a write resolves its path; a test run
/// starts the test runner.
pub open spec fn execution_begin(kind: InvocationKindView) -> (ExecutionStageView, ExecutionActionView) {
    match kind {
        InvocationKindView::ReadFile { path } => (
            ExecutionStageView::ResolveRead,
            ExecutionActionView::Resolve(path),
        ),
        InvocationKindView::WriteFile { path, content } => (
            ExecutionStageView::ResolveWrite { content },
            ExecutionActionView::Resolve(path),
        ),
        InvocationKindView::RunTests { test_suite } => (
            ExecutionStageView::RunTests,
            ExecutionActionView::RunTests(test_suite),
        ),
    }
}

/// Which events each stage takes.
pub open spec fn execution_accepts(s: ExecutionStageView, e: ExecutionEventView) -> bool {
    match s {
        ExecutionStageView::ResolveRead => e is Resolved,
        ExecutionStageView::CheckRead { .. } => e is Checked,
        ExecutionStageView::Read => e is Output,
        ExecutionStageView::ResolveWrite { .. } => e is Resolved,
        ExecutionStageView::ProbeWrite { .. } => e is Checked,
        ExecutionStageView::CheckWrite { .. } => e is Checked,
        ExecutionStageView::CreateTemp { .. } => e is Done,
        ExecutionStageView::WriteTemp { .. } => e is Done,
        ExecutionStageView::SyncTemp { .. } => e is Done,
        ExecutionStageView::RenameTemp { .. } => e is Done,
        ExecutionStageView::RemoveTemp { .. } => e is Done,
        ExecutionStageView::RunTests => e is Output,
        ExecutionStageView::Finished => false,
    }
}

/// A write that may go ahead: it goes through a scratch file in the target's
/// directory; a target with no directory (the host root) is refused.
pub open spec fn prepare_write(target: Seq<Seq<char>>, content: Seq<char>, unique: Seq<char>) -> (
    ExecutionStageView,
    ExecutionActionView,
) {
    if target.len() == 0 {
        finish(Err(BoundaryErrorView::SymlinkEscalation))
    } else {
        let temp = scratch_path(target, unique);
        (
            ExecutionStageView::CreateTemp { target, temp, content },
            ExecutionActionView::CreateNew(temp),
        )
    }
}

/// One step of a run: what the host's answer `e` leads to in stage `s`.
/// `unique` names the scratch file when a write reaches it.
///
/// Every failure ends the run with the failure, except a failed rename,
/// which first removes the scratch file; the removal's own result is not
/// looked at. (Events a stage does not take, see [`execution_accepts`], are
/// never handed to a step; the last arm only makes the function total.)
pub open spec fn execution_step(s: ExecutionStageView, e: ExecutionEventView, unique: Seq<char>) -> (
    ExecutionStageView,
    ExecutionActionView,
) {
    match (s, e) {
        (ExecutionStageView::ResolveRead, ExecutionEventView::Resolved(Ok(target))) => (
            ExecutionStageView::CheckRead { target },
            ExecutionActionView::CheckIsFile(target),
        ),
        (ExecutionStageView::CheckRead { target }, ExecutionEventView::Checked(Ok(true))) => (
            ExecutionStageView::Read,
            ExecutionActionView::ReadFile(target),
        ),
        (ExecutionStageView::CheckRead { .. }, ExecutionEventView::Checked(Ok(false))) => finish(
            Err(
                BoundaryErrorView::PolicyDenial(
                    "ReadFile execution requires an active file target, not a directory"@,
                ),
            ),
        ),
        (ExecutionStageView::Read, ExecutionEventView::Output(r)) => finish(r),
        (ExecutionStageView::ResolveWrite { content }, ExecutionEventView::Resolved(Ok(target))) => (
            ExecutionStageView::ProbeWrite { target, content },
            ExecutionActionView::CheckExists(target),
        ),
        (ExecutionStageView::ProbeWrite { target, content }, ExecutionEventView::Checked(Ok(true))) => (
            ExecutionStageView::CheckWrite { target, content },
            ExecutionActionView::CheckIsDirectory(target),
        ),
        (ExecutionStageView::ProbeWrite { target, content }, ExecutionEventView::Checked(Ok(false))) =>
            prepare_write(target, content, unique),
        (ExecutionStageView::CheckWrite { .. }, ExecutionEventView::Checked(Ok(true))) => finish(
            Err(
                BoundaryErrorView::PolicyDenial(
                    "Write path maps directly to a pre-existing directory structure"@,
                ),
            ),
        ),
        (ExecutionStageView::CheckWrite { target, content }, ExecutionEventView::Checked(Ok(false))) =>
            prepare_write(target, content, unique),
        (ExecutionStageView::CreateTemp { target, temp, content }, ExecutionEventView::Done(Ok(_))) => (
            ExecutionStageView::WriteTemp { target, temp },
            ExecutionActionView::WriteAll(content),
        ),
        (ExecutionStageView::WriteTemp { target, temp }, ExecutionEventView::Done(Ok(_))) => (
            ExecutionStageView::SyncTemp { target, temp },
            ExecutionActionView::Sync,
        ),
        (ExecutionStageView::SyncTemp { target, temp }, ExecutionEventView::Done(Ok(_))) => (
            ExecutionStageView::RenameTemp { target, temp },
            ExecutionActionView::Rename { from: temp, to: target },
        ),
        (ExecutionStageView::RenameTemp { .. }, ExecutionEventView::Done(Ok(_))) => finish(
            Ok("Storage modification write processed"@),
        ),
        (ExecutionStageView::RenameTemp { temp, .. }, ExecutionEventView::Done(Err(x))) => (
            ExecutionStageView::RemoveTemp { error: x },
            ExecutionActionView::RemoveFile(temp),
        ),
        (ExecutionStageView::RemoveTemp { error }, _) => finish(Err(error)),
        (ExecutionStageView::RunTests, ExecutionEventView::Output(r)) => finish(r),
        (_, ExecutionEventView::Resolved(Err(x))) => finish(Err(x)),
        (_, ExecutionEventView::Checked(Err(x))) => finish(Err(x)),
        (_, ExecutionEventView::Done(Err(x))) => finish(Err(x)),
        (_, ExecutionEventView::Output(Err(x))) => finish(Err(x)),
        _ => finish(Err(BoundaryErrorView::InvalidPathSpecification)),
    }
}

// ---------------------------------------------------------------- laws

/// Whether `temp` is a scratch file of a write to `target`: an entry of the
/// target's own directory, named by a random version 4 UUID.
pub open spec fn scratch_of(target: Seq<Seq<char>>, temp: Seq<Seq<char>>) -> bool {
    target.len() > 0 && exists|u: Seq<char>| uuid_v4_text(u) && temp == scratch_path(target, u)
}

/// What holds of every stage a run reaches: a write's scratch file, once
/// named, is one of its target (see [`scratch_of`]).
pub open spec fn execution_wf(s: ExecutionStageView) -> bool {
    match s {
        ExecutionStageView::CreateTemp { target, temp, .. } => scratch_of(target, temp),
        ExecutionStageView::WriteTemp { target, temp } => scratch_of(target, temp),
        ExecutionStageView::SyncTemp { target, temp } => scratch_of(target, temp),
        ExecutionStageView::RenameTemp { target, temp } => scratch_of(target, temp),
        _ => true,
    }
}

/// How many steps a run can still take from a stage.
pub open spec fn steps_left(s: ExecutionStageView) -> nat {
    match s {
        ExecutionStageView::ResolveRead => 3,
        ExecutionStageView::CheckRead { .. } => 2,
        ExecutionStageView::Read => 1,
        ExecutionStageView::ResolveWrite { .. } => 8,
        ExecutionStageView::ProbeWrite { .. } => 7,
        ExecutionStageView::CheckWrite { .. } => 6,
        ExecutionStageView::CreateTemp { .. } => 5,
        ExecutionStageView::WriteTemp { .. } => 4,
        ExecutionStageView::SyncTemp { .. } => 3,
        ExecutionStageView::RenameTemp { .. } => 2,
        ExecutionStageView::RemoveTemp { .. } => 1,
        ExecutionStageView::RunTests => 1,
        ExecutionStageView::Finished => 0,
    }
}

/// The target of a write whose target is known, the host root otherwise.
pub open spec fn write_target(s: ExecutionStageView) -> Seq<Seq<char>> {
    match s {
        ExecutionStageView::ProbeWrite { target, .. } => target,
        ExecutionStageView::CheckWrite { target, .. } => target,
        ExecutionStageView::CreateTemp { target, .. } => target,
        ExecutionStageView::WriteTemp { target, .. } => target,
        ExecutionStageView::SyncTemp { target, .. } => target,
        ExecutionStageView::RenameTemp { target, .. } => target,
        _ => Seq::empty(),
    }
}

/// Law: every run starts well formed, and every step keeps it so: a write
/// only ever goes through a scratch file of its own target.
pub proof fn lemma_scratch_file_stays_beside_target(
    s: ExecutionStageView,
    e: ExecutionEventView,
    unique: Seq<char>,
    kind: InvocationKindView,
)
    requires
        execution_wf(s),
        execution_accepts(s, e),
        uuid_v4_text(unique),
    ensures
        execution_wf(execution_begin(kind).0),
        execution_wf(execution_step(s, e, unique).0),
{
}

/// Law: a run ends, after at most eight steps: each step brings it closer
/// to its end.
pub proof fn lemma_runs_end(s: ExecutionStageView, e: ExecutionEventView, unique: Seq<char>, kind: InvocationKindView)
    requires
        execution_accepts(s, e),
    ensures
        steps_left(execution_begin(kind).0) <= 8,
        steps_left(execution_step(s, e, unique).0) < steps_left(s),
        steps_left(execution_step(s, e, unique).0) == 0 <==> execution_step(s, e, unique).1 is Finish,
{
}

/// Law: the host is changed only in this order. A scratch file beside the
/// target is created once the target was found not to be a directory; the
/// content is written to it once it was created; it is synced once written;
/// it is renamed onto the target only once synced; and it is removed only
/// when that rename failed. A file is read only once found to be a regular
/// file.
pub proof fn lemma_host_changes_in_order(s: ExecutionStageView, e: ExecutionEventView, unique: Seq<char>)
    requires
        execution_wf(s),
        execution_accepts(s, e),
        uuid_v4_text(unique),
    ensures
        match execution_step(s, e, unique).1 {
            ExecutionActionView::CreateNew(p) => {
                &&& e == ExecutionEventView::Checked(Ok(false))
                &&& s is ProbeWrite || s is CheckWrite
                &&& p == scratch_path(write_target(s), unique)
                &&& write_target(s).len() > 0
            },
            ExecutionActionView::WriteAll(c) => {
                &&& e matches ExecutionEventView::Done(Ok(_))
                &&& s matches ExecutionStageView::CreateTemp { content, .. }
                &&& c == content
            },
            ExecutionActionView::Sync => {
                &&& e matches ExecutionEventView::Done(Ok(_))
                &&& s is WriteTemp
            },
            ExecutionActionView::Rename { from, to } => {
                &&& e matches ExecutionEventView::Done(Ok(_))
                &&& s matches ExecutionStageView::SyncTemp { target, temp }
                &&& from == temp
                &&& to == target
                &&& scratch_of(to, from)
            },
            ExecutionActionView::RemoveFile(p) => {
                &&& e matches ExecutionEventView::Done(Err(_))
                &&& s matches ExecutionStageView::RenameTemp { temp, .. }
                &&& p == temp
            },
            ExecutionActionView::ReadFile(p) => {
                &&& e == ExecutionEventView::Checked(Ok(true))
                &&& s matches ExecutionStageView::CheckRead { target }
                &&& p == target
            },
            _ => true,
        },
{
}

/// Law: a failure ends the run with that very failure; only a failed rename
/// first removes the scratch file, and the run then ends with the rename's
/// failure.
pub proof fn lemma_failures_end_the_run(
    s: ExecutionStageView,
    e: ExecutionEventView,
    unique: Seq<char>,
    x: BoundaryErrorView,
)
    requires
        execution_accepts(s, e),
        e == ExecutionEventView::Resolved(Err(x)) || e == ExecutionEventView::Checked(Err(x))
            || e == ExecutionEventView::Done(Err(x)) || e == ExecutionEventView::Output(Err(x)),
        !(s is RemoveTemp),
    ensures
        execution_step(s, e, unique) == finish(Err(x)) || (s matches ExecutionStageView::RenameTemp {
            temp,
            ..
        } && execution_step(s, e, unique) == (
            ExecutionStageView::RemoveTemp { error: x },
            ExecutionActionView::RemoveFile(temp),
        )),
        forall|d: Result<(), BoundaryErrorView>|
            #[trigger] execution_step(ExecutionStageView::RemoveTemp { error: x }, ExecutionEventView::Done(d), unique)
                == finish(Err(x)),
{
}

pub open spec fn output_view(r: Result<String, BoundaryError>) -> Result<Seq<char>, BoundaryErrorView> {
    match r {
        Ok(t) => Ok(t@),
        Err(e) => Err(e@),
    }
}

fn finished(r: Result<String, BoundaryError>) -> (x: (Execution, ExecutionAction))
    ensures
        (x.0@, x.1@) == finish(output_view(r)),
{
    (Execution { stage: ExecutionStage::Finished }, ExecutionAction::Finish(r))
}

impl Execution {
    /// Starts the run of an invocation (see [`execution_begin`]).
    pub fn begin(kind: ValidatedToolInvocationKind) -> (r: (Execution, ExecutionAction))
        ensures
            (r.0@, r.1@) == execution_begin(kind@),
    {
        match kind {
            ValidatedToolInvocationKind::ReadFile { path } => (
                Execution { stage: ExecutionStage::ResolveRead },
                ExecutionAction::Resolve(path),
            ),
            ValidatedToolInvocationKind::WriteFile { path, content } => (
                Execution { stage: ExecutionStage::ResolveWrite { content: content.into_inner() } },
                ExecutionAction::Resolve(path),
            ),
            ValidatedToolInvocationKind::RunTests { test_suite } => (
                Execution { stage: ExecutionStage::RunTests },
                ExecutionAction::RunTests(test_suite),
            ),
        }
    }

    /// Whether the run takes `event` now (see [`execution_accepts`]).
    pub fn accepts(&self, event: &ExecutionEvent) -> (r: bool)
        ensures
            r == execution_accepts(self@, event@),
    {
        match (&self.stage, event) {
            (ExecutionStage::ResolveRead, ExecutionEvent::Resolved(_)) => true,
            (ExecutionStage::CheckRead { .. }, ExecutionEvent::Checked(_)) => true,
            (ExecutionStage::Read, ExecutionEvent::Output(_)) => true,
            (ExecutionStage::ResolveWrite { .. }, ExecutionEvent::Resolved(_)) => true,
            (ExecutionStage::ProbeWrite { .. }, ExecutionEvent::Checked(_)) => true,
            (ExecutionStage::CheckWrite { .. }, ExecutionEvent::Checked(_)) => true,
            (ExecutionStage::CreateTemp { .. }, ExecutionEvent::Done(_)) => true,
            (ExecutionStage::WriteTemp { .. }, ExecutionEvent::Done(_)) => true,
            (ExecutionStage::SyncTemp { .. }, ExecutionEvent::Done(_)) => true,
            (ExecutionStage::RenameTemp { .. }, ExecutionEvent::Done(_)) => true,
            (ExecutionStage::RemoveTemp { .. }, ExecutionEvent::Done(_)) => true,
            (ExecutionStage::RunTests, ExecutionEvent::Output(_)) => true,
            _ => false,
        }
    }

    /// Whether the run is over.
    pub fn is_finished(&self) -> (r: bool)
        ensures
            r == self@ is Finished,
    {
        match self.stage {
            ExecutionStage::Finished => true,
            _ => false,
        }
    }

    /// Goes on from a write target that may be written: names a fresh
    /// scratch file beside it (see [`prepare_write`]).
    fn prepare(target: HostPath, content: String) -> (r: (Execution, ExecutionAction))
        ensures
            exists|u: Seq<char>|
                uuid_v4_text(u) && (r.0@, r.1@) == prepare_write(target@, content@, u),
    {
        match NarrowExecutionAdapter::write_parent(&target) {
            Err(e) => {
                let r = finished(Err(e));
                assert((r.0@, r.1@) == prepare_write(target@, content@, "00000000-0000-4000-8000-000000000000"@)) ;
                assert(uuid_v4_text("00000000-0000-4000-8000-000000000000"@)) by {
                    reveal_strlit("00000000-0000-4000-8000-000000000000");
                }
                r
            },
            Ok(parent) => {
                let temp = NarrowExecutionAdapter::fresh_temp_file_path(&parent);
                let action = ExecutionAction::CreateNew(temp.duplicate());
                (Execution { stage: ExecutionStage::CreateTemp { target, temp, content } }, action)
            },
        }
    }

    /// Takes the host's answer to the last action and says what to do next
    /// (see [`execution_step`]); a write names its scratch file with a
    /// random version 4 UUID.
    pub fn step(self, event: ExecutionEvent) -> (r: (Execution, ExecutionAction))
        requires
            execution_accepts(self@, event@),
        ensures
            exists|u: Seq<char>|
                uuid_v4_text(u) && (r.0@, r.1@) == execution_step(self@, event@, u),
    {
        let ghost s0 = self@;
        let ghost e0 = event@;
        let r = match (self.stage, event) {
            (ExecutionStage::ResolveRead, ExecutionEvent::Resolved(Ok(target))) => {
                let action = ExecutionAction::CheckIsFile(target.duplicate());
                (Execution { stage: ExecutionStage::CheckRead { target } }, action)
            },
            (ExecutionStage::CheckRead { target }, ExecutionEvent::Checked(Ok(is_file))) => {
                match NarrowExecutionAdapter::check_read_target(is_file) {
                    Ok(()) => (Execution { stage: ExecutionStage::Read }, ExecutionAction::ReadFile(target)),
                    Err(e) => finished(Err(e)),
                }
            },
            (ExecutionStage::Read, ExecutionEvent::Output(r)) => finished(r),
            (ExecutionStage::ResolveWrite { content }, ExecutionEvent::Resolved(Ok(target))) => {
                let action = ExecutionAction::CheckExists(target.duplicate());
                (Execution { stage: ExecutionStage::ProbeWrite { target, content } }, action)
            },
            (ExecutionStage::ProbeWrite { target, content }, ExecutionEvent::Checked(Ok(true))) => {
                let action = ExecutionAction::CheckIsDirectory(target.duplicate());
                (Execution { stage: ExecutionStage::CheckWrite { target, content } }, action)
            },
            (ExecutionStage::ProbeWrite { target, content }, ExecutionEvent::Checked(Ok(false))) => {
                return Self::prepare(target, content);
            },
            (ExecutionStage::CheckWrite { target, content }, ExecutionEvent::Checked(Ok(is_dir))) => {
                match NarrowExecutionAdapter::check_write_target(is_dir) {
                    Ok(()) => {
                        return Self::prepare(target, content);
                    },
                    Err(e) => finished(Err(e)),
                }
            },
            (ExecutionStage::CreateTemp { target, temp, content }, ExecutionEvent::Done(Ok(()))) => (
                Execution { stage: ExecutionStage::WriteTemp { target, temp } },
                ExecutionAction::WriteAll(content),
            ),
            (ExecutionStage::WriteTemp { target, temp }, ExecutionEvent::Done(Ok(()))) => (
                Execution { stage: ExecutionStage::SyncTemp { target, temp } },
                ExecutionAction::Sync,
            ),
            (ExecutionStage::SyncTemp { target, temp }, ExecutionEvent::Done(Ok(()))) => {
                let action = ExecutionAction::Rename { from: temp.duplicate(), to: target.duplicate() };
                (Execution { stage: ExecutionStage::RenameTemp { target, temp } }, action)
            },
            (ExecutionStage::RenameTemp { .. }, ExecutionEvent::Done(Ok(()))) => finished(
                Ok(NarrowExecutionAdapter::write_confirmation()),
            ),
            (ExecutionStage::RenameTemp { temp, .. }, ExecutionEvent::Done(Err(x))) => (
                Execution { stage: ExecutionStage::RemoveTemp { error: x } },
                ExecutionAction::RemoveFile(temp),
            ),
            (ExecutionStage::RemoveTemp { error }, _) => finished(Err(error)),
            (ExecutionStage::RunTests, ExecutionEvent::Output(r)) => finished(r),
            (_, ExecutionEvent::Resolved(Err(x))) => finished(Err(x)),
            (_, ExecutionEvent::Checked(Err(x))) => finished(Err(x)),
            (_, ExecutionEvent::Done(Err(x))) => finished(Err(x)),
            (_, ExecutionEvent::Output(Err(x))) => finished(Err(x)),
            _ => {
                assert(false);
                finished(Err(BoundaryError::InvalidPathSpecification))
            },
        };
        proof {
            let u = "00000000-0000-4000-8000-000000000000"@;
            reveal_strlit("00000000-0000-4000-8000-000000000000");
            assert(uuid_v4_text(u));
            assert((r.0@, r.1@) == execution_step(s0, e0, u));
        }
        r
    }
}

} // verus!
