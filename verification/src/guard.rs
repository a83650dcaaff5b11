use vstd::prelude::*;
use vstd::string::StringExecFns;
use vstd::string::StringSliceAdditionalSpecFns;
use crate::path::FsPath;
use crate::path::PathText;
use crate::path::is_within;
use crate::path::within_is_component_prefix;
use crate::path::ends_significant;
use crate::path::leading_slash_names_the_same_place;
use crate::path::parents_of_the_same_place;
use crate::path::same_place;
use crate::path::slash;
use crate::path::split_pieces;
use crate::path::joined_path;
use crate::path::parent_pieces;
use crate::path::path_display;

verus! {

/// Keeps an agent's file access inside one directory, the root. The root
/// is held as the canonical path of the workspace directory.
pub struct ReagisGuard {
    root_path: FsPath,
}

/// What probing a path found: whether it exists and, if so, what it
/// resolves to once every link and "." or ".." component is followed.
pub enum PathProbe {
    /// The path does not exist.
    Missing,
    /// The path exists but could not be resolved; the text is the error's.
    Unresolvable(String),
    /// The path exists and resolves to this canonical path.
    Resolved(FsPath),
}

/// The path that a probe lets a read go on with: the resolved path, when
/// it lies inside `root`.
pub open spec fn resolution(root: Seq<Seq<u8>>, probe: PathProbe) -> Option<Seq<Seq<u8>>> {
    match probe {
        PathProbe::Resolved(r) => if is_within(r@, root) {
            Some(r@)
        } else {
            None
        },
        _ => None,
    }
}

impl ReagisGuard {
    /// The canonical root directory.
    pub closed spec fn root(&self) -> Seq<Seq<u8>> {
        self.root_path@
    }

    /// A guard for the directory whose canonical path is `root`.
    pub fn with_root(root: FsPath) -> (r: Self)
        ensures
            r.root() == root@,
    {
        ReagisGuard { root_path: root }
    }

    /// The canonical root directory.
    pub fn root_path(&self) -> (r: FsPath)
        ensures
            r@ == self.root(),
    {
        self.root_path.copy()
    }

    /// The path that the agent's `agent_path` names: it is read relative to
    /// the root, a leading '/' included; see `joined_path`.
    pub fn target(&self, agent_path: &str) -> (r: PathText)
        ensures
            r@ == joined_path(self.root(), agent_path.spec_bytes()),
    {
        PathText::joined(&self.root_path, agent_path)
    }

    /// Decides on a path that is to be read, given what probing its target
    /// (see `target`) found: it must exist, resolve, and resolve to a path
    /// inside the root. The path that comes back is the resolved one, so
    /// every path handed out for reading lies inside the root.
    pub fn resolve_existing_path(&self, agent_path: &str, probe: PathProbe) -> (r: Result<
        FsPath,
        String,
    >)
        ensures
            r matches Ok(p) ==> is_within(p@, self.root()),
            match r {
                Ok(p) => resolution(self.root(), probe) == Some(p@),
                Err(_) => resolution(self.root(), probe) is None,
            },
            match probe {
                PathProbe::Missing => r matches Err(m) && m@ == "Path does not exist: "@
                    + agent_path@,
                PathProbe::Unresolvable(e) => r matches Err(m) && m@ == "Failed to resolve path: "@
                    + e@,
                PathProbe::Resolved(resolved) => if is_within(resolved@, self.root()) {
                    r matches Ok(p) && p@ == resolved@
                } else {
                    r matches Err(m) && m@ == "Access denied: "@ + agent_path@ + " escapes root"@
                },
            },
    {
        match probe {
            PathProbe::Missing => {
                let mut m = String::from_str("Path does not exist: ");
                m.append(agent_path);
                Err(m)
            },
            PathProbe::Unresolvable(e) => {
                let mut m = String::from_str("Failed to resolve path: ");
                m.append(e.as_str());
                Err(m)
            },
            PathProbe::Resolved(resolved) => {
                if resolved.starts_with(&self.root_path) {
                    Ok(resolved)
                } else {
                    let mut m = String::from_str("Access denied: ");
                    m.append(agent_path);
                    m.append(" escapes root");
                    Err(m)
                }
            },
        }
    }
}

/// A file-system operation that a write asks to have performed.
pub enum GuardRequest {
    /// Find whether the path exists and, if it does, resolve it.
    Probe(PathText),
    /// Create the directory and all its missing ancestors.
    CreateDirs(PathText),
    /// Resolve the path (it is expected to exist).
    Canonicalize(PathText),
    /// Write the text to the file, replacing what it held.
    WriteFile(PathText, String),
}

/// What performing a `GuardRequest` gave; error texts are the `Display`
/// texts of the I/O errors.
pub enum GuardReply {
    Probed(PathProbe),
    DirsCreated(Result<(), String>),
    Canonicalized(Result<FsPath, String>),
    Written(Result<(), String>),
}

/// What a write does next: ask for an operation, or end with its result.
pub enum GuardStep {
    Ask(GuardRequest),
    Finish(Result<String, String>),
}

/// Where a write stands.
pub enum WriteStage {
    /// Probing this ancestor of the target, walking up from the parent to
    /// the nearest one that exists.
    Ancestor(PathText),
    /// Probing the target itself.
    Target,
    /// Creating the target's parent directories.
    CreatingParent,
    /// Resolving the target's parent after it was created.
    VerifyingParent,
    /// Writing the file.
    Writing,
    /// Finished.
    Done,
}

/// A write of `content` to the agent's `agent_path`, checked step by step:
/// the nearest existing ancestor, the target if it exists, and the parent
/// once created must all resolve inside the root before anything is
/// written.
pub struct WriteJob {
    root: FsPath,
    target: PathText,
    agent_path: String,
    content: String,
    stage: WriteStage,
}

pub open spec fn asks_probe(s: GuardStep, p: Seq<Seq<u8>>) -> bool {
    s matches GuardStep::Ask(GuardRequest::Probe(q)) && q@ == p
}

pub open spec fn asks_create(s: GuardStep, p: Seq<Seq<u8>>) -> bool {
    s matches GuardStep::Ask(GuardRequest::CreateDirs(q)) && q@ == p
}

pub open spec fn asks_canonicalize(s: GuardStep, p: Seq<Seq<u8>>) -> bool {
    s matches GuardStep::Ask(GuardRequest::Canonicalize(q)) && q@ == p
}

pub open spec fn asks_write(s: GuardStep, p: Seq<Seq<u8>>, content: Seq<char>) -> bool {
    s matches GuardStep::Ask(GuardRequest::WriteFile(q, c)) && q@ == p && c@ == content
}

pub open spec fn fails_with(s: GuardStep, m: Seq<char>) -> bool {
    s matches GuardStep::Finish(Err(e)) && e@ == m
}

pub open spec fn succeeds_with(s: GuardStep, m: Seq<char>) -> bool {
    s matches GuardStep::Finish(Ok(t)) && t@ == m
}

/// Whether a write in `stage` can take `reply`: the reply answers the
/// request that the stage made.
pub open spec fn stage_accepts(stage: WriteStage, reply: GuardReply) -> bool {
    match stage {
        WriteStage::Ancestor(_) => reply is Probed,
        WriteStage::Target => reply is Probed,
        WriteStage::CreatingParent => reply is DirsCreated,
        WriteStage::VerifyingParent => reply is Canonicalized,
        WriteStage::Writing => reply is Written,
        WriteStage::Done => false,
    }
}

impl WriteJob {
    pub closed spec fn root(&self) -> Seq<Seq<u8>> {
        self.root@
    }

    pub closed spec fn target(&self) -> Seq<Seq<u8>> {
        self.target@
    }

    pub closed spec fn agent_path(&self) -> Seq<char> {
        self.agent_path@
    }

    pub closed spec fn content(&self) -> Seq<char> {
        self.content@
    }

    pub closed spec fn stage(&self) -> WriteStage {
        self.stage
    }

    /// The job is consistent: a parent is handled only when the target
    /// has one.
    pub open spec fn wf(&self) -> bool {
        &&& self.stage() is CreatingParent ==> parent_pieces(self.target()) is Some
        &&& self.stage() is VerifyingParent ==> parent_pieces(self.target()) is Some
    }

    /// The job's target, text and root are those of `other`.
    pub open spec fn same_task(&self, other: &WriteJob) -> bool {
        &&& self.root() == other.root()
        &&& self.target() == other.target()
        &&& self.agent_path() == other.agent_path()
        &&& self.content() == other.content()
    }

    /// Having found the nearest existing ancestor safe (or none), the write
    /// probes its target.
    pub open spec fn goes_to_target(&self, step: GuardStep) -> bool {
        self.stage() == WriteStage::Target && asks_probe(step, self.target())
    }

    /// Having found the target safe (or missing), the write creates the
    /// target's parent, or writes at once when the target has no parent.
    pub open spec fn goes_to_parent(&self, step: GuardStep) -> bool {
        if let Some(parent) = parent_pieces(self.target()) {
            self.stage() == WriteStage::CreatingParent && asks_create(step, parent)
        } else {
            self.stage() == WriteStage::Writing && asks_write(step, self.target(), self.content())
        }
    }

    /// The write ends with the error `m`.
    pub open spec fn ends_with_error(&self, step: GuardStep, m: Seq<char>) -> bool {
        self.stage() == WriteStage::Done && fails_with(step, m)
    }

    /// How a write begins: it probes the parent of its target, or the
    /// target itself when the target has no parent.
    pub open spec fn begins(&self, root: Seq<Seq<u8>>, agent_path: &str, content: &str, step: GuardStep) -> bool {
        &&& self.root() == root
        &&& self.target() == joined_path(root, agent_path.spec_bytes())
        &&& self.agent_path() == agent_path@
        &&& self.content() == content@
        &&& if let Some(parent) = parent_pieces(self.target()) {
            self.stage() matches WriteStage::Ancestor(a) && a@ == parent && asks_probe(step, parent)
        } else {
            self.goes_to_target(step)
        }
    }

    /// One step of a write: from the job `pre` and the reply to its last
    /// request, the job `post` and what it does next.
    pub open spec fn advances(pre: WriteJob, reply: GuardReply, post: WriteJob, step: GuardStep) -> bool {
        &&& post.same_task(&pre)
        &&& match (pre.stage(), reply) {
            (WriteStage::Ancestor(a), GuardReply::Probed(PathProbe::Missing)) => if let Some(up) = parent_pieces(a@) {
                post.stage() matches WriteStage::Ancestor(b) && b@ == up && asks_probe(step, up)
            } else {
                post.goes_to_target(step)
            },
            (WriteStage::Ancestor(_), GuardReply::Probed(PathProbe::Unresolvable(e))) => post.ends_with_error(step, e@),
            (WriteStage::Ancestor(a), GuardReply::Probed(PathProbe::Resolved(r))) => if is_within(r@, pre.root()) {
                post.goes_to_target(step)
            } else {
                post.ends_with_error(
                    step,
                    "Access denied: Path escapes sandbox via "@ + path_display(a@),
                )
            },
            (WriteStage::Target, GuardReply::Probed(PathProbe::Missing)) => post.goes_to_parent(step),
            (WriteStage::Target, GuardReply::Probed(PathProbe::Unresolvable(e))) => post.ends_with_error(step, e@),
            (WriteStage::Target, GuardReply::Probed(PathProbe::Resolved(r))) => if is_within(r@, pre.root()) {
                post.goes_to_parent(step)
            } else {
                post.ends_with_error(step, "Access denied: Target file is outside sandbox"@)
            },
            (WriteStage::CreatingParent, GuardReply::DirsCreated(Err(e))) => post.ends_with_error(
                step,
                "Failed to create directories: "@ + e@,
            ),
            (WriteStage::CreatingParent, GuardReply::DirsCreated(Ok(_))) => post.stage() == WriteStage::VerifyingParent
                && (parent_pieces(pre.target()) matches Some(parent) && asks_canonicalize(step, parent)),
            (WriteStage::VerifyingParent, GuardReply::Canonicalized(Err(e))) => post.ends_with_error(step, e@),
            (WriteStage::VerifyingParent, GuardReply::Canonicalized(Ok(r))) => if is_within(r@, pre.root()) {
                post.stage() == WriteStage::Writing && asks_write(step, pre.target(), pre.content())
            } else {
                post.ends_with_error(step, "Security breach: Parent directory escaped sandbox"@)
            },
            (WriteStage::Writing, GuardReply::Written(Err(e))) => post.ends_with_error(
                step,
                "Failed to write: "@ + e@,
            ),
            (WriteStage::Writing, GuardReply::Written(Ok(_))) => post.stage() == WriteStage::Done
                && succeeds_with(step, "Successfully wrote to "@ + pre.agent_path()),
            _ => false,
        }
    }

    fn probe_step(p: PathText) -> (s: GuardStep)
        ensures
            asks_probe(s, p@),
    {
        GuardStep::Ask(GuardRequest::Probe(p))
    }

    fn fail_step(m: String) -> (s: GuardStep)
        ensures
            fails_with(s, m@),
    {
        GuardStep::Finish(Err(m))
    }

    /// Starts writing `content` to the agent's `agent_path` under `guard`.
    pub fn start(guard: &ReagisGuard, agent_path: &str, content: &str) -> (r: (WriteJob, GuardStep))
        ensures
            r.0.wf(),
            r.0.begins(guard.root(), agent_path, content, r.1),
    {
        let target = guard.target(agent_path);
        match target.parent() {
            Some(parent) => {
                let probe = parent.copy();
                let job = WriteJob {
                    root: guard.root_path(),
                    target,
                    agent_path: agent_path.to_owned(),
                    content: content.to_owned(),
                    stage: WriteStage::Ancestor(parent),
                };
                (job, Self::probe_step(probe))
            },
            None => {
                let probe = target.copy();
                let job = WriteJob {
                    root: guard.root_path(),
                    target,
                    agent_path: agent_path.to_owned(),
                    content: content.to_owned(),
                    stage: WriteStage::Target,
                };
                (job, Self::probe_step(probe))
            },
        }
    }

    /// Whether `reply` answers the request that the job made last.
    pub fn accepts(&self, reply: &GuardReply) -> (b: bool)
        ensures
            b == stage_accepts(self.stage(), *reply),
    {
        match (&self.stage, reply) {
            (WriteStage::Ancestor(_), GuardReply::Probed(_)) => true,
            (WriteStage::Target, GuardReply::Probed(_)) => true,
            (WriteStage::CreatingParent, GuardReply::DirsCreated(_)) => true,
            (WriteStage::VerifyingParent, GuardReply::Canonicalized(_)) => true,
            (WriteStage::Writing, GuardReply::Written(_)) => true,
            _ => false,
        }
    }

    fn to_target(&mut self) -> (s: GuardStep)
        ensures
            final(self).same_task(old(self)),
            final(self).goes_to_target(s),
    {
        self.stage = WriteStage::Target;
        Self::probe_step(self.target.copy())
    }

    fn to_parent(&mut self) -> (s: GuardStep)
        ensures
            final(self).same_task(old(self)),
            final(self).goes_to_parent(s),
            final(self).wf(),
    {
        match self.target.parent() {
            Some(parent) => {
                self.stage = WriteStage::CreatingParent;
                GuardStep::Ask(GuardRequest::CreateDirs(parent))
            },
            None => {
                self.stage = WriteStage::Writing;
                GuardStep::Ask(GuardRequest::WriteFile(self.target.copy(), self.content.clone()))
            },
        }
    }

    fn fail(&mut self, m: String) -> (s: GuardStep)
        ensures
            final(self).same_task(old(self)),
            final(self).ends_with_error(s, m@),
    {
        self.stage = WriteStage::Done;
        Self::fail_step(m)
    }

    /// Takes the reply to the last request and says what comes next.
    pub fn next(&mut self, reply: GuardReply) -> (s: GuardStep)
        requires
            old(self).wf(),
            stage_accepts(old(self).stage(), reply),
        ensures
            final(self).wf(),
            WriteJob::advances(*old(self), reply, *final(self), s),
    {
        match (&self.stage, reply) {
            (WriteStage::Ancestor(a), GuardReply::Probed(PathProbe::Missing)) => {
                match a.parent() {
                    Some(up) => {
                        let probe = up.copy();
                        self.stage = WriteStage::Ancestor(up);
                        Self::probe_step(probe)
                    },
                    None => self.to_target(),
                }
            },
            (WriteStage::Ancestor(_), GuardReply::Probed(PathProbe::Unresolvable(e))) => self.fail(e),
            (WriteStage::Ancestor(a), GuardReply::Probed(PathProbe::Resolved(r))) => {
                if r.starts_with(&self.root) {
                    self.to_target()
                } else {
                    let mut m = String::from_str("Access denied: Path escapes sandbox via ");
                    let shown = a.display();
                    m.append(shown.as_str());
                    self.fail(m)
                }
            },
            (WriteStage::Target, GuardReply::Probed(PathProbe::Missing)) => self.to_parent(),
            (WriteStage::Target, GuardReply::Probed(PathProbe::Unresolvable(e))) => self.fail(e),
            (WriteStage::Target, GuardReply::Probed(PathProbe::Resolved(r))) => {
                if r.starts_with(&self.root) {
                    self.to_parent()
                } else {
                    self.fail(String::from_str("Access denied: Target file is outside sandbox"))
                }
            },
            (WriteStage::CreatingParent, GuardReply::DirsCreated(Err(e))) => {
                let mut m = String::from_str("Failed to create directories: ");
                m.append(e.as_str());
                self.fail(m)
            },
            (WriteStage::CreatingParent, GuardReply::DirsCreated(Ok(_))) => {
                self.stage = WriteStage::VerifyingParent;
                match self.target.parent() {
                    Some(parent) => GuardStep::Ask(GuardRequest::Canonicalize(parent)),
                    // `wf`: a target whose parent is being created has one.
                    None => self.fail(String::new()),
                }
            },
            (WriteStage::VerifyingParent, GuardReply::Canonicalized(Err(e))) => self.fail(e),
            (WriteStage::VerifyingParent, GuardReply::Canonicalized(Ok(r))) => {
                if r.starts_with(&self.root) {
                    self.stage = WriteStage::Writing;
                    GuardStep::Ask(GuardRequest::WriteFile(self.target.copy(), self.content.clone()))
                } else {
                    self.fail(String::from_str("Security breach: Parent directory escaped sandbox"))
                }
            },
            (WriteStage::Writing, GuardReply::Written(Err(e))) => {
                let mut m = String::from_str("Failed to write: ");
                m.append(e.as_str());
                self.fail(m)
            },
            (WriteStage::Writing, GuardReply::Written(Ok(_))) => {
                self.stage = WriteStage::Done;
                let mut m = String::from_str("Successfully wrote to ");
                m.append(self.agent_path.as_str());
                GuardStep::Finish(Ok(m))
            },
            _ => {
                // No other pairing is accepted by `stage_accepts`.
                self.fail(String::new())
            },
        }
    }
}

/// A write is asked for only as the step right after the target's parent
/// (or, for a target with no parent, the target itself) was found inside
/// the root, and it writes the job's content to the job's target.
pub proof fn write_follows_containment_check(
    pre: WriteJob,
    reply: GuardReply,
    post: WriteJob,
    step: GuardStep,
)
    requires
        pre.wf(),
        WriteJob::advances(pre, reply, post, step),
        step matches GuardStep::Ask(GuardRequest::WriteFile(_, _)),
    ensures
        asks_write(step, pre.target(), pre.content()),
        parent_pieces(pre.target()) is Some ==> pre.stage() is VerifyingParent && (reply matches GuardReply::Canonicalized(
            Ok(r),
        ) && is_within(r@, pre.root())),
        parent_pieces(pre.target()) is None ==> pre.stage() is Target && (reply matches GuardReply::Probed(
            p,
        ) && !(p is Unresolvable) && (p matches PathProbe::Resolved(r) ==> is_within(r@, pre.root()))),
{
}

/// A read goes on with exactly the resolved paths that begin with all the
/// root's components, at any depth below it, and with nothing when the
/// path is missing or unresolvable.
pub proof fn reads_go_on_exactly_below_the_root(root: Seq<Seq<u8>>, r: FsPath, e: String)
    ensures
        (root.len() <= r@.len() && forall|i: int| 0 <= i < root.len() ==> r@[i] == root[i])
            ==> resolution(root, PathProbe::Resolved(r)) == Some(r@),
        !(root.len() <= r@.len() && forall|i: int| 0 <= i < root.len() ==> r@[i] == root[i])
            ==> resolution(root, PathProbe::Resolved(r)) is None,
        resolution(root, PathProbe::Missing) is None,
        resolution(root, PathProbe::Unresolvable(e)) is None,
{
    within_is_component_prefix(r@, root);
}

/// Two stages are alike: the same stage, with ancestors that name the same
/// place.
pub open spec fn alike_stages(s1: WriteStage, s2: WriteStage) -> bool {
    match (s1, s2) {
        (WriteStage::Ancestor(a), WriteStage::Ancestor(b)) => same_place(a@, b@),
        _ => s1 == s2 && !(s1 is Ancestor),
    }
}

/// Two steps are alike: they ask for the same operation on paths that name
/// the same place (and, for a write, the same content), or both end with an
/// error, or both end with success.
pub open spec fn alike_steps(s1: GuardStep, s2: GuardStep) -> bool {
    match (s1, s2) {
        (GuardStep::Ask(GuardRequest::Probe(a)), GuardStep::Ask(GuardRequest::Probe(b))) => same_place(a@, b@),
        (GuardStep::Ask(GuardRequest::CreateDirs(a)), GuardStep::Ask(GuardRequest::CreateDirs(b))) => same_place(a@, b@),
        (GuardStep::Ask(GuardRequest::Canonicalize(a)), GuardStep::Ask(GuardRequest::Canonicalize(b))) => same_place(
            a@,
            b@,
        ),
        (GuardStep::Ask(GuardRequest::WriteFile(a, c)), GuardStep::Ask(GuardRequest::WriteFile(b, d))) => same_place(
            a@,
            b@,
        ) && c@ == d@,
        (GuardStep::Finish(Err(_)), GuardStep::Finish(Err(_))) => true,
        (GuardStep::Finish(Ok(_)), GuardStep::Finish(Ok(_))) => true,
        _ => false,
    }
}

/// The condition under which a leading '/' changes nothing: the rest `p` of
/// the agent's path is not itself absolute and does not end with a
/// separator or a ".".
pub open spec fn slash_is_redundant(p: Seq<u8>) -> bool {
    &&& !(p.len() > 0 && p[0] == slash())
    &&& p.len() == 0 || ends_significant(split_pieces(p))
}

/// A read of `"/" + p` and a read of `p` probe paths that name the same
/// place, so on the same file system they get the same probe and, by
/// `resolve_existing_path`, the same resolved path (`resolution` does not
/// depend on the agent's path).
pub proof fn leading_slash_reads_the_same_file(guard: ReagisGuard, a1: &str, a2: &str)
    requires
        a1.spec_bytes() == seq![slash()] + a2.spec_bytes(),
        slash_is_redundant(a2.spec_bytes()),
    ensures
        same_place(joined_path(guard.root(), a1.spec_bytes()), joined_path(guard.root(), a2.spec_bytes())),
{
    leading_slash_names_the_same_place(guard.root(), a2.spec_bytes());
}

/// Writes of the same content to `"/" + p` and to `p` begin alike: targets
/// that name the same place, alike stages, alike first requests.
pub proof fn leading_slash_begins_the_same_write(
    root: Seq<Seq<u8>>,
    a1: &str,
    a2: &str,
    content: &str,
    job1: WriteJob,
    step1: GuardStep,
    job2: WriteJob,
    step2: GuardStep,
)
    requires
        a1.spec_bytes() == seq![slash()] + a2.spec_bytes(),
        slash_is_redundant(a2.spec_bytes()),
        job1.begins(root, a1, content, step1),
        job2.begins(root, a2, content, step2),
    ensures
        job1.root() == job2.root(),
        same_place(job1.target(), job2.target()),
        job1.content() == job2.content(),
        alike_stages(job1.stage(), job2.stage()),
        alike_steps(step1, step2),
{
    leading_slash_names_the_same_place(root, a2.spec_bytes());
    parents_of_the_same_place(job1.target(), job2.target());
}

/// Two writes with the same root and content, targets that name the same
/// place and alike stages take alike steps on the same reply: they ask for
/// the same operation on paths that name the same place, or both fail, or
/// both succeed, each success naming its own agent path. With
/// `leading_slash_begins_the_same_write`, writes to `"/" + p` and to `p`
/// thus act alike on the file system and both succeed or both fail.
pub proof fn writes_to_the_same_place_go_alike(
    pre1: WriteJob,
    pre2: WriteJob,
    reply: GuardReply,
    post1: WriteJob,
    step1: GuardStep,
    post2: WriteJob,
    step2: GuardStep,
)
    requires
        pre1.root() == pre2.root(),
        same_place(pre1.target(), pre2.target()),
        pre1.content() == pre2.content(),
        alike_stages(pre1.stage(), pre2.stage()),
        WriteJob::advances(pre1, reply, post1, step1),
        WriteJob::advances(pre2, reply, post2, step2),
    ensures
        alike_stages(post1.stage(), post2.stage()),
        alike_steps(step1, step2),
        succeeds_with(step1, "Successfully wrote to "@ + pre1.agent_path()) <==> (step1 matches GuardStep::Finish(Ok(_))),
        succeeds_with(step2, "Successfully wrote to "@ + pre2.agent_path()) <==> (step2 matches GuardStep::Finish(Ok(_))),
{
    parents_of_the_same_place(pre1.target(), pre2.target());
    if let (WriteStage::Ancestor(a), WriteStage::Ancestor(b)) = (pre1.stage(), pre2.stage()) {
        parents_of_the_same_place(a@, b@);
    }
}

} // verus!
