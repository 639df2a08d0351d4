//! The narrow adapter that carries out validated invocations: the decisions it
//! takes around the host operations (which the caller performs).

use vstd::prelude::*;
use crate::boundary::errors::{policy_denial, BoundaryError, BoundaryErrorView};
use crate::boundary::text::push_str;
use crate::boundary::audit::{random_uuid_text, uuid_char_at, uuid_v4_text};
use crate::boundary::types::{dot, dot_dot, string_views, valid_component, TestSuiteName};
use crate::boundary::workspace::{HostPath, WorkspaceRoot};

verus! {

/// The tools the adapter may start: the test runner's executable.
#[derive(Debug)]
pub struct RuntimeEnvironment {
    cargo_path: HostPath,
}

impl View for RuntimeEnvironment {
    type V = Seq<Seq<char>>;

    closed spec fn view(&self) -> Seq<Seq<char>> {
        self.cargo_path@
    }
}

/// Whether a permission mode lets anyone execute.
pub open spec fn mode_is_executable(mode: u32) -> bool {
    (mode & 0o111u32) != 0
}

/// What the boundary makes of a probed runtime tool path: the path, if it
/// names a regular file that someone may execute (or the host has no
/// permission bits), else the refusal.
pub open spec fn runtime_tool_decision(canonical: Seq<Seq<char>>, is_file: bool, mode: Option<u32>) -> Result<
    Seq<Seq<char>>,
    BoundaryErrorView,
> {
    if !is_file {
        Err(BoundaryErrorView::PolicyDenial("Runtime tool path must point to a file"@))
    } else if mode matches Some(m) && !mode_is_executable(m) {
        Err(BoundaryErrorView::PolicyDenial("Runtime tool path is not executable"@))
    } else {
        Ok(canonical)
    }
}

impl RuntimeEnvironment {
    /// The requested tool path must be absolute.
    pub fn check_requested_path(is_absolute: bool) -> (r: Result<(), BoundaryError>)
        ensures
            is_absolute ==> r is Ok,
            !is_absolute ==> (r matches Err(e) && e@ == BoundaryErrorView::PolicyDenial(
                "Runtime tool path must be absolute"@,
            )),
    {
        if !is_absolute {
            return Err(policy_denial("Runtime tool path must be absolute"));
        }
        Ok(())
    }

    /// Accepts the canonicalized tool path when it names a regular file that
    /// is executable (`permission_mode` is `None` where the host has no such
    /// permission bits).
    pub fn try_new(canonical_path: HostPath, is_file: bool, permission_mode: Option<u32>) -> (r:
        Result<Self, BoundaryError>)
        ensures
            !is_file ==> (r matches Err(e) && e@ == BoundaryErrorView::PolicyDenial(
                "Runtime tool path must point to a file"@,
            )),
            is_file && (permission_mode matches Some(m) && !mode_is_executable(m)) ==> (r matches Err(e)
                && e@ == BoundaryErrorView::PolicyDenial("Runtime tool path is not executable"@)),
            is_file && !(permission_mode matches Some(m) && !mode_is_executable(m)) ==> (r matches Ok(
                env,
            ) && env@ == canonical_path@),
    {
        if !is_file {
            return Err(policy_denial("Runtime tool path must point to a file"));
        }
        if let Some(mode) = permission_mode {
            if mode & 0o111u32 == 0 {
                return Err(policy_denial("Runtime tool path is not executable"));
            }
        }
        Ok(RuntimeEnvironment { cargo_path: canonical_path })
    }

    /// Accepts the test runner's path. A relative path is refused before the
    /// host is asked anything; otherwise `probe` canonicalizes the path and
    /// reports whether it names a regular file and its permission bits (or
    /// the error that stopped it), and [`RuntimeEnvironment::try_new`]
    /// decides.
    pub fn from_probe<F: FnOnce() -> Result<(HostPath, bool, Option<u32>), BoundaryError>>(
        is_absolute: bool,
        probe: F,
    ) -> (r: Result<Self, BoundaryError>)
        requires
            is_absolute ==> call_requires(probe, ()),
        ensures
            !is_absolute ==> (r matches Err(e) && e@ == BoundaryErrorView::PolicyDenial(
                "Runtime tool path must be absolute"@,
            )),
            is_absolute ==> exists|p: Result<(HostPath, bool, Option<u32>), BoundaryError>|
                call_ensures(probe, (), p) && match p {
                    Err(e) => r matches Err(x) && x@ == e@,
                    Ok((canonical, is_file, mode)) => runtime_tool_decision(canonical@, is_file, mode)
                        == match r {
                        Ok(env) => Ok(env@),
                        Err(x) => Err::<Seq<Seq<char>>, BoundaryErrorView>(x@),
                    },
                },
    {
        Self::check_requested_path(is_absolute)?;
        match probe() {
            Err(e) => Err(e),
            Ok((canonical, is_file, mode)) => Self::try_new(canonical, is_file, mode),
        }
    }

    pub fn cargo_path(&self) -> (r: &HostPath)
        ensures
            r@ == self@,
    {
        &self.cargo_path
    }
}

/// A test run to start: the program, where, with which environment and arguments.
#[derive(Debug)]
pub struct TestCommand {
    pub program: HostPath,
    pub working_dir: HostPath,
    /// The whole environment of the child: nothing is inherited.
    pub env: Vec<(String, String)>,
    pub args: Vec<String>,
}

/// Carries out validated invocations inside one workspace.
#[derive(Debug)]
pub struct NarrowExecutionAdapter {
    workspace: WorkspaceRoot,
    runtime: RuntimeEnvironment,
}

pub open spec fn test_arguments(suite: Seq<char>) -> Seq<Seq<char>> {
    seq!["test"@, "--test"@, suite]
}

impl NarrowExecutionAdapter {
    pub fn new(workspace: WorkspaceRoot, runtime: RuntimeEnvironment) -> (r: Self)
        ensures
            r.workspace_view() == workspace@,
            r.runtime_view() == runtime@,
    {
        Self { workspace, runtime }
    }

    pub closed spec fn workspace_view(&self) -> Seq<Seq<char>> {
        self.workspace@
    }

    pub closed spec fn runtime_view(&self) -> Seq<Seq<char>> {
        self.runtime@
    }

    pub fn workspace(&self) -> (r: &WorkspaceRoot)
        ensures
            r@ == self.workspace_view(),
    {
        &self.workspace
    }

    pub fn runtime(&self) -> (r: &RuntimeEnvironment)
        ensures
            r@ == self.runtime_view(),
    {
        &self.runtime
    }

    /// A read must target a regular file.
    pub fn check_read_target(is_file: bool) -> (r: Result<(), BoundaryError>)
        ensures
            is_file ==> r is Ok,
            !is_file ==> (r matches Err(e) && e@ == BoundaryErrorView::PolicyDenial(
                "ReadFile execution requires an active file target, not a directory"@,
            )),
    {
        if !is_file {
            return Err(
                policy_denial("ReadFile execution requires an active file target, not a directory"),
            );
        }
        Ok(())
    }

    /// A write must not replace an existing directory.
    pub fn check_write_target(existing_directory: bool) -> (r: Result<(), BoundaryError>)
        ensures
            !existing_directory ==> r is Ok,
            existing_directory ==> (r matches Err(e) && e@ == BoundaryErrorView::PolicyDenial(
                "Write path maps directly to a pre-existing directory structure"@,
            )),
    {
        if existing_directory {
            return Err(
                policy_denial("Write path maps directly to a pre-existing directory structure"),
            );
        }
        Ok(())
    }

    /// The directory a write lands in; the host root has none.
    pub fn write_parent(target: &HostPath) -> (r: Result<HostPath, BoundaryError>)
        ensures
            target@.len() > 0 ==> (r matches Ok(p) && p@ == target@.drop_last()),
            target@.len() == 0 ==> (r matches Err(e) && e@ == BoundaryErrorView::SymlinkEscalation),
    {
        let parent = target.duplicate();
        let mut comps = crate::boundary::types::clone_strings(parent.components());
        if comps.len() == 0 {
            return Err(BoundaryError::SymlinkEscalation);
        }
        let ghost c0 = comps@;
        comps.pop();
        assert(string_views(comps@) =~= string_views(c0).drop_last());
        Ok(HostPath::from_components(comps))
    }

    /// The scratch file a write goes through before it is renamed into place.
    pub fn temp_file_path(parent: &HostPath, unique: &str) -> (r: HostPath)
        ensures
            r@ == parent@.push(".tmp-aci-file-"@ + unique@),
    {
        let mut comps = crate::boundary::types::clone_strings(parent.components());
        let mut name = String::new();
        push_str(&mut name, ".tmp-aci-file-");
        push_str(&mut name, unique);
        let ghost c0 = comps@;
        comps.push(name);
        assert(string_views(comps@) =~= string_views(c0).push(".tmp-aci-file-"@ + unique@));
        HostPath::from_components(comps)
    }

    /// The scratch file for a write into `parent`, under a fresh random name:
    /// a plain entry of `parent` itself.
    pub fn fresh_temp_file_path(parent: &HostPath) -> (r: HostPath)
        ensures
            exists|u: Seq<char>| uuid_v4_text(u) && r@ == parent@.push(".tmp-aci-file-"@ + u),
            r@.drop_last() == parent@,
            valid_component(r@.last()),
    {
        let unique = random_uuid_text();
        let r = Self::temp_file_path(parent, unique.as_str());
        proof {
            reveal_strlit(".tmp-aci-file-");
            let name = ".tmp-aci-file-"@ + unique@;
            assert(r@.drop_last() =~= parent@);
            assert(name.len() == 50);
            assert(name.len() != dot().len() && name.len() != dot_dot().len());
            assert forall|i: int| 0 <= i < name.len() implies name[i] != '/' && name[i] != '\0' by {
                if i >= 14 {
                    assert(name[i] == unique@[i - 14]);
                    assert(uuid_char_at(i - 14, unique@[i - 14]));
                }
            }
        }
        r
    }

    /// What a completed write reports.
    pub fn write_confirmation() -> (r: String)
        ensures
            r@ == "Storage modification write processed"@,
    {
        "Storage modification write processed".to_owned()
    }

    /// The test run for a suite: the runtime's test runner in the workspace
    /// root, with `PATH=/usr/bin:/bin` as its only environment and the
    /// arguments `test --test <suite>`.
    pub fn test_command(&self, suite: &TestSuiteName) -> (r: TestCommand)
        ensures
            r.program@ == self.runtime_view(),
            r.working_dir@ == self.workspace_view(),
            r.env@.len() == 1,
            r.env@[0].0@ == "PATH"@,
            r.env@[0].1@ == "/usr/bin:/bin"@,
            string_views(r.args@) == test_arguments(suite@),
    {
        let mut args: Vec<String> = Vec::new();
        args.push("test".to_owned());
        args.push("--test".to_owned());
        args.push(suite.as_str().to_owned());
        assert(string_views(args@) =~= test_arguments(suite@));
        let mut env: Vec<(String, String)> = Vec::new();
        env.push(("PATH".to_owned(), "/usr/bin:/bin".to_owned()));
        TestCommand {
            program: self.runtime.cargo_path().duplicate(),
            working_dir: self.workspace.root_path().duplicate(),
            env,
            args,
        }
    }
}

} // verus!
