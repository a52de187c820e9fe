//! Sequencing a source build: the declared shell steps run strictly in
//! order, the first non-zero exit aborts the whole build, and executables
//! are copied only after every step has succeeded. The session here makes
//! the decisions; the caller runs each command and feeds the outcome back.

use vstd::prelude::*;
use crate::error::LeafError;
use crate::package::ExecutableInfo;
use crate::text::path_join;

verus! {

/// What running one build step produced.
#[derive(Debug)]
pub struct StepResult {
    pub success: bool,
    pub exit_status: i32,
    pub stdout: String,
    pub stderr: String,
}

/// The progress of one source build: which step runs next, and whether an
/// earlier step has already aborted the build.
#[derive(Debug)]
pub struct BuildSession {
    commands: Vec<String>,
    next: usize,
    failed: Option<LeafError>,
}

impl BuildSession {
    /// The build steps, in order.
    pub closed spec fn spec_commands(self) -> Seq<String> {
        self.commands@
    }

    /// The index of the next step to run; every step before it succeeded.
    pub closed spec fn spec_next(self) -> int {
        self.next as int
    }

    /// The failure that aborted the build, if any.
    pub closed spec fn spec_failure(self) -> Option<LeafError> {
        self.failed
    }

    pub open spec fn wf(self) -> bool {
        0 <= self.spec_next() <= self.spec_commands().len()
    }

    /// A step is still owed and no step has failed.
    pub open spec fn spec_in_progress(self) -> bool {
        self.spec_failure() is None && self.spec_next() < self.spec_commands().len()
    }

    /// Every step ran and succeeded: only now may executables be copied.
    pub open spec fn spec_complete(self) -> bool {
        self.spec_failure() is None && self.spec_next() == self.spec_commands().len()
    }

    /// Start a build over the declared steps; a build-kind variant with no
    /// steps is refused.
    pub fn start(commands: Vec<String>, package: &str) -> (r: Result<BuildSession, LeafError>)
        ensures
            match r {
                Ok(s) => commands@.len() > 0 && s.wf() && s.spec_commands() == commands@
                    && s.spec_next() == 0 && s.spec_failure() is None,
                Err(e) => commands@.len() == 0 && (e matches LeafError::NoBuildCommands(p) && p@
                    == package@),
            },
    {
        if commands.len() == 0 {
            return Err(LeafError::NoBuildCommands(package.to_owned()));
        }
        Ok(BuildSession { commands, next: 0, failed: None })
    }

    /// The command the caller must run next, when one is owed.
    pub fn current_command(&self) -> (r: Option<&String>)
        requires
            self.wf(),
        ensures
            match r {
                Some(c) => self.spec_in_progress() && *c == self.spec_commands()[self.spec_next()],
                None => !self.spec_in_progress(),
            },
    {
        match self.failed {
            Some(_) => None,
            None => {
                if self.next < self.commands.len() {
                    Some(&self.commands[self.next])
                } else {
                    None
                }
            },
        }
    }

    /// How many steps there are in all.
    pub fn total_steps(&self) -> (r: usize)
        ensures
            r == self.spec_commands().len(),
    {
        self.commands.len()
    }

    /// How many steps have succeeded so far.
    pub fn steps_done(&self) -> (r: usize)
        ensures
            r == self.spec_next(),
    {
        self.next
    }

    /// Whether every step succeeded.
    pub fn is_complete(&self) -> (r: bool)
        ensures
            r == self.spec_complete(),
    {
        match self.failed {
            Some(_) => false,
            None => self.next == self.commands.len(),
        }
    }

    /// The failure that aborted the build, if any.
    pub fn failure(&self) -> (r: Option<&LeafError>)
        ensures
            match r {
                Some(e) => self.spec_failure() == Some(*e),
                None => self.spec_failure() is None,
            },
    {
        match &self.failed {
            Some(e) => Some(e),
            None => None,
        }
    }

    /// Record what the current step produced: on success the session moves
    /// to the following step; on failure it aborts, keeping the offending
    /// command and its captured output, and accepts no further steps.
    pub fn on_step_result(&mut self, r: StepResult)
        requires
            old(self).wf(),
            old(self).spec_in_progress(),
        ensures
            final(self).wf(),
            *final(self) == spec_step(*old(self), r),
            final(self).spec_commands() == old(self).spec_commands(),
            r.success ==> final(self).spec_failure() is None && final(self).spec_next() == old(
                self,
            ).spec_next() + 1,
            !r.success ==> ({
                &&& !final(self).spec_in_progress()
                &&& !final(self).spec_complete()
                &&& final(self).spec_next() == old(self).spec_next()
                &&& final(self).spec_failure() matches Some(e) && (e matches
                    LeafError::BuildCommandFailed { command, exit_status, stdout, stderr }
                    && command == old(self).spec_commands()[old(self).spec_next()]
                    && exit_status == r.exit_status && stdout == r.stdout && stderr == r.stderr)
            }),
    {
        let n = self.commands.len();
        if r.success {
            self.next = self.next + 1;
        } else {
            let command = self.commands[self.next].clone();
            self.failed = Some(
                LeafError::BuildCommandFailed {
                    command,
                    exit_status: r.exit_status,
                    stdout: r.stdout,
                    stderr: r.stderr,
                },
            );
        }
    }
}

/// The successor session: one step further on success, aborted on failure.
pub closed spec fn spec_step(s: BuildSession, r: StepResult) -> BuildSession {
    if r.success {
        BuildSession { next: (s.spec_next() + 1) as usize, ..s }
    } else {
        BuildSession {
            failed: Some(
                LeafError::BuildCommandFailed {
                    command: s.spec_commands()[s.spec_next()],
                    exit_status: r.exit_status,
                    stdout: r.stdout,
                    stderr: r.stderr,
                },
            ),
            ..s
        }
    }
}

/// The session after feeding it a sequence of step results, stopping as soon
/// as it is no longer in progress.
pub open spec fn spec_run(s: BuildSession, results: Seq<StepResult>) -> BuildSession
    decreases results.len(),
{
    if results.len() == 0 || !s.spec_in_progress() {
        s
    } else {
        spec_run(spec_step(s, results[0]), results.drop_first())
    }
}

/// Build-step abort: when the step at index `k` is the first to exit
/// non-zero, the steps after it never run (the session stops with `next`
/// still at `k`), the build is never complete, and the recorded failure
/// carries that step's command and captured output.
pub proof fn lemma_build_abort(s: BuildSession, results: Seq<StepResult>, k: int)
    requires
        s.wf(),
        s.spec_failure() is None,
        s.spec_next() == 0,
        0 <= k < s.spec_commands().len(),
        k < results.len(),
        forall|j: int| 0 <= j < k ==> (#[trigger] results[j]).success,
        !results[k].success,
    ensures
        spec_run(s, results).spec_next() == k,
        !spec_run(s, results).spec_complete(),
        !spec_run(s, results).spec_in_progress(),
        spec_run(s, results).spec_failure() matches Some(e) && (e matches
            LeafError::BuildCommandFailed { command, exit_status, stdout, stderr } && command
            == s.spec_commands()[k] && exit_status == results[k].exit_status && stdout
            == results[k].stdout && stderr == results[k].stderr),
{
    lemma_build_abort_from(s, results, k);
}

proof fn lemma_build_abort_from(s: BuildSession, results: Seq<StepResult>, k: int)
    requires
        s.wf(),
        s.spec_failure() is None,
        s.spec_next() + k < s.spec_commands().len(),
        0 <= k < results.len(),
        forall|j: int| 0 <= j < k ==> (#[trigger] results[j]).success,
        !results[k].success,
    ensures
        spec_run(s, results).spec_next() == s.spec_next() + k,
        spec_run(s, results).spec_commands() == s.spec_commands(),
        !spec_run(s, results).spec_complete(),
        !spec_run(s, results).spec_in_progress(),
        spec_run(s, results).spec_failure() matches Some(e) && (e matches
            LeafError::BuildCommandFailed { command, exit_status, stdout, stderr } && command
            == s.spec_commands()[s.spec_next() + k] && exit_status == results[k].exit_status
            && stdout == results[k].stdout && stderr == results[k].stderr),
    decreases k,
{
    assert(s.commands.len() == s.spec_commands().len());
    if k == 0 {
        let aborted = spec_step(s, results[0]);
        assert(s.spec_in_progress());
        assert(spec_run(s, results) == spec_run(aborted, results.drop_first()));
        assert(!aborted.spec_in_progress());
        assert(spec_run(aborted, results.drop_first()) == aborted);
    } else {
        let stepped = spec_step(s, results[0]);
        assert(results[0].success);
        assert(s.spec_next() + 1 <= s.spec_commands().len());
        assert(stepped.spec_next() == s.spec_next() + 1);
        assert(spec_run(s, results) == spec_run(stepped, results.drop_first()));
        let rest = results.drop_first();
        assert forall|j: int| 0 <= j < k - 1 implies (#[trigger] rest[j]).success by {
            assert(rest[j] == results[j + 1]);
        }
        assert(rest[k - 1] == results[k]);
        lemma_build_abort_from(stepped, rest, k - 1);
    }
}

/// Where each built executable is copied: from the source root into the
/// package directory, both under the executable's declared relative path.
#[derive(Debug)]
pub struct CopyAction {
    pub source: String,
    pub dest: String,
}

/// The copy actions for the declared executables of a completed build, in
/// declaration order.
pub fn build_copy_list(
    source_root: &str,
    package_dir: &str,
    execs: &Vec<ExecutableInfo>,
    session: &BuildSession,
) -> (r: Vec<CopyAction>)
    requires
        session.spec_complete(),
    ensures
        r@.len() == execs@.len(),
        forall|i: int|
            0 <= i < r@.len() ==> (#[trigger] r@[i]).source@ == source_root@ + "/"@
                + execs@[i]@.path && r@[i].dest@ == package_dir@ + "/"@ + execs@[i]@.path,
{
    let n = execs.len();
    let mut r: Vec<CopyAction> = Vec::new();
    let mut i: usize = 0;
    while i < n
        invariant
            n == execs@.len(),
            i <= n,
            r@.len() == i,
            forall|j: int|
                0 <= j < i ==> (#[trigger] r@[j]).source@ == source_root@ + "/"@
                    + execs@[j]@.path && r@[j].dest@ == package_dir@ + "/"@ + execs@[j]@.path,
        decreases n - i,
    {
        let source = path_join(source_root, execs[i].path.as_str());
        let dest = path_join(package_dir, execs[i].path.as_str());
        r.push(CopyAction { source, dest });
        i += 1;
    }
    r
}

/// The effective source root of an extracted archive: the single
/// subdirectory when there is exactly one, otherwise the extraction
/// directory itself.
pub fn select_source_root(subdirs: &Vec<String>, build_dir: &str) -> (r: String)
    ensures
        subdirs@.len() == 1 ==> r@ == subdirs@[0]@,
        subdirs@.len() != 1 ==> r@ == build_dir@,
{
    if subdirs.len() == 1 {
        subdirs[0].clone()
    } else {
        build_dir.to_owned()
    }
}

} // verus!
