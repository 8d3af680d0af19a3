//! Plans: what the operating system is asked for, in which order, and what a refusal means.
use vstd::prelude::*;

use crate::error;
use crate::error::Error;
use crate::error::ErrorModel;
use crate::policy::compile;
use crate::text;

verus! {

/// `EINVAL` on Linux.
pub const EINVAL: i32 = 22;

/// One thing that the operating system is asked for.
#[derive(Debug)]
pub enum Act {
    /// Wait for one byte from the other end of the socket.
    AwaitByte,
    /// Make a number the real, effective and saved group id.
    SetGroups(u32),
    /// Make a number the real, effective and saved user id.
    SetUsers(u32),
    /// `prctl` with an option and its second argument; the others are zero.
    Prctl { option: i32, arg: u64 },
    /// Read the capability sets of this process.
    ReadCapabilities,
    /// Write back the capability sets that were read, without the inheritable ones.
    ClearInheritable,
    /// Write empty capability sets.
    ClearCapabilities,
    /// Make a directory and those above it.
    MakeDirs(String),
    /// Make a directory.
    MakeDir(String),
    /// Write an empty file.
    Touch(String),
    /// Write a file.
    WriteFile { path: String, contents: String },
    /// See whether a path exists.
    Find(String),
    /// Open a directory.
    OpenDir(String),
    /// Read the inode number of a path.
    ReadInode(String),
    /// `mount`.
    Mount { source: Option<String>, target: String, fstype: Option<String>, flags: u64, data: Option<String> },
    /// `chdir`.
    ChangeDir(String),
    /// `pivot_root`.
    PivotRoot { new_root: String, put_old: String },
    /// `umount2`.
    Unmount { target: String, options: i32 },
    /// Identify the executables that the policy lists.
    CollectExecutables,
    /// Make a Landlock ruleset that handles these accesses to files and to the network.
    CreateRuleset { files: u64, network: u64 },
    /// Open a path for a Landlock rule.
    OpenPath(String),
    /// Allow accesses beneath the path that was opened.
    AddRule { path: String, access: u64 },
    /// Put this process under the ruleset.
    RestrictSelf,
    /// Look up the system call filter of a profile.
    ChooseFilter(String),
    /// Install the filter.
    FilterCalls,
    /// Tell the parent that the confinement is complete.
    ReportReady,
    /// Put the command, its arguments and its environment in the form that `execve` takes.
    PrepareCommand,
    PrepareArguments,
    PrepareEnvironment,
    /// `execve`.
    Execute(String),
    /// Open the list of a cgroup's processes.
    OpenProcs,
    /// Put a process on that list.
    WriteProcs(i32),
    /// Kill the supervised process.
    KillPayload,
    /// Kill every process of a cgroup.
    KillCgroup(String),
    /// Wait until a cgroup has no process left.
    AwaitEmpty(String),
    /// Remove an empty directory.
    RemoveDir(String),
    /// Detach the programs of a cgroup.
    DetachHooks,
    /// Remove a directory and all beneath it.
    RemoveTree(String),
    /// Remove the BPF context of a cgroup.
    Deregister(u64),
}

#[verifier::ext_equal]
pub enum ActModel {
    AwaitByte,
    SetGroups(u32),
    SetUsers(u32),
    Prctl { option: i32, arg: u64 },
    ReadCapabilities,
    ClearInheritable,
    ClearCapabilities,
    MakeDirs(Seq<char>),
    MakeDir(Seq<char>),
    Touch(Seq<char>),
    WriteFile { path: Seq<char>, contents: Seq<char> },
    Find(Seq<char>),
    OpenDir(Seq<char>),
    ReadInode(Seq<char>),
    Mount {
        source: Option<Seq<char>>,
        target: Seq<char>,
        fstype: Option<Seq<char>>,
        flags: u64,
        data: Option<Seq<char>>,
    },
    ChangeDir(Seq<char>),
    PivotRoot { new_root: Seq<char>, put_old: Seq<char> },
    Unmount { target: Seq<char>, options: i32 },
    CollectExecutables,
    CreateRuleset { files: u64, network: u64 },
    OpenPath(Seq<char>),
    AddRule { path: Seq<char>, access: u64 },
    RestrictSelf,
    ChooseFilter(Seq<char>),
    FilterCalls,
    ReportReady,
    PrepareCommand,
    PrepareArguments,
    PrepareEnvironment,
    Execute(Seq<char>),
    OpenProcs,
    WriteProcs(i32),
    KillPayload,
    KillCgroup(Seq<char>),
    AwaitEmpty(Seq<char>),
    RemoveDir(Seq<char>),
    DetachHooks,
    RemoveTree(Seq<char>),
    Deregister(u64),
}

impl View for Act {
    type V = ActModel;

    open spec fn view(&self) -> ActModel {
        match *self {
            Act::AwaitByte => ActModel::AwaitByte,
            Act::SetGroups(g) => ActModel::SetGroups(g),
            Act::SetUsers(u) => ActModel::SetUsers(u),
            Act::Prctl { option, arg } => ActModel::Prctl { option, arg },
            Act::ReadCapabilities => ActModel::ReadCapabilities,
            Act::ClearInheritable => ActModel::ClearInheritable,
            Act::ClearCapabilities => ActModel::ClearCapabilities,
            Act::MakeDirs(p) => ActModel::MakeDirs(p@),
            Act::MakeDir(p) => ActModel::MakeDir(p@),
            Act::Touch(p) => ActModel::Touch(p@),
            Act::WriteFile { path, contents } => ActModel::WriteFile { path: path@, contents: contents@ },
            Act::Find(p) => ActModel::Find(p@),
            Act::OpenDir(p) => ActModel::OpenDir(p@),
            Act::ReadInode(p) => ActModel::ReadInode(p@),
            Act::Mount { source, target, fstype, flags, data } => ActModel::Mount {
                source: text::opt(source),
                target: target@,
                fstype: text::opt(fstype),
                flags,
                data: text::opt(data),
            },
            Act::ChangeDir(p) => ActModel::ChangeDir(p@),
            Act::PivotRoot { new_root, put_old } => ActModel::PivotRoot { new_root: new_root@, put_old: put_old@ },
            Act::Unmount { target, options } => ActModel::Unmount { target: target@, options },
            Act::CollectExecutables => ActModel::CollectExecutables,
            Act::CreateRuleset { files, network } => ActModel::CreateRuleset { files, network },
            Act::OpenPath(p) => ActModel::OpenPath(p@),
            Act::AddRule { path, access } => ActModel::AddRule { path: path@, access },
            Act::RestrictSelf => ActModel::RestrictSelf,
            Act::ChooseFilter(p) => ActModel::ChooseFilter(p@),
            Act::FilterCalls => ActModel::FilterCalls,
            Act::ReportReady => ActModel::ReportReady,
            Act::PrepareCommand => ActModel::PrepareCommand,
            Act::PrepareArguments => ActModel::PrepareArguments,
            Act::PrepareEnvironment => ActModel::PrepareEnvironment,
            Act::Execute(cmd) => ActModel::Execute(cmd@),
            Act::OpenProcs => ActModel::OpenProcs,
            Act::WriteProcs(pid) => ActModel::WriteProcs(pid),
            Act::KillPayload => ActModel::KillPayload,
            Act::KillCgroup(p) => ActModel::KillCgroup(p@),
            Act::AwaitEmpty(p) => ActModel::AwaitEmpty(p@),
            Act::RemoveDir(p) => ActModel::RemoveDir(p@),
            Act::DetachHooks => ActModel::DetachHooks,
            Act::RemoveTree(p) => ActModel::RemoveTree(p@),
            Act::Deregister(c) => ActModel::Deregister(c),
        }
    }
}

/// As what the refusal of a step is reported.
#[derive(Debug, Clone, Copy, PartialEq, Eq, Structural)]
pub enum Blame {
    /// As a plain sentence.
    Plain,
    Launch,
    Namespace,
    Cgroup,
    Mount,
    Io,
    /// Not at all: the step is done where it can be done.
    Nobody,
}

/// A step of a plan.
#[derive(Debug)]
pub struct Step {
    pub act: Act,
    pub blame: Blame,
    /// What stands before the reason in the report of a refusal.
    pub lead: String,
    /// Whether `EINVAL` is no refusal: what the step asks for does not exist on this kernel.
    pub invalid_ok: bool,
}

#[verifier::ext_equal]
pub struct StepModel {
    pub act: ActModel,
    pub blame: Blame,
    pub lead: Seq<char>,
    pub invalid_ok: bool,
}

impl View for Step {
    type V = StepModel;

    open spec fn view(&self) -> StepModel {
        StepModel { act: self.act@, blame: self.blame, lead: self.lead@, invalid_ok: self.invalid_ok }
    }
}

/// How a step went wrong.
#[derive(Debug)]
pub enum Failure {
    /// The system refused, with an error number and the sentence for it.
    Refused { errno: i32, message: String },
    /// A path held a NUL byte.
    NulInPath { path: String, message: String },
    /// Another argument held a NUL byte.
    NulInArgument { message: String },
}

#[verifier::ext_equal]
pub enum FailureModel {
    Refused { errno: i32, message: Seq<char> },
    NulInPath { path: Seq<char>, message: Seq<char> },
    NulInArgument { message: Seq<char> },
}

impl View for Failure {
    type V = FailureModel;

    open spec fn view(&self) -> FailureModel {
        match *self {
            Failure::Refused { errno, message } => FailureModel::Refused { errno, message: message@ },
            Failure::NulInPath { path, message } => FailureModel::NulInPath { path: path@, message: message@ },
            Failure::NulInArgument { message } => FailureModel::NulInArgument { message: message@ },
        }
    }
}

/// Why a plan was given up.
#[derive(Debug)]
pub enum Fault {
    Plain(String),
    Known(Error),
}

#[verifier::ext_equal]
pub enum FaultModel {
    Plain(Seq<char>),
    Known(ErrorModel),
}

impl View for Fault {
    type V = FaultModel;

    open spec fn view(&self) -> FaultModel {
        match *self {
            Fault::Plain(m) => FaultModel::Plain(m@),
            Fault::Known(e) => FaultModel::Known(e@),
        }
    }
}

/// The sentence for a fault.
pub open spec fn fault_text(f: FaultModel) -> Seq<char> {
    match f {
        FaultModel::Plain(m) => m,
        FaultModel::Known(e) => error::described(e),
    }
}

/// A fault as an error: a plain sentence counts as a failed launch.
pub open spec fn fault_error(f: FaultModel) -> ErrorModel {
    match f {
        FaultModel::Plain(m) => ErrorModel::LaunchFailed(m),
        FaultModel::Known(e) => e,
    }
}

impl Fault {
    /// The sentence for the fault.
    pub fn describe(&self) -> (r: String)
        ensures
            r@ == fault_text(self@),
    {
        match self {
            Fault::Plain(m) => m.clone(),
            Fault::Known(e) => e.to_string(),
        }
    }

    /// The fault as an error.
    pub fn into_error(self) -> (r: Error)
        ensures
            r@ == fault_error(self@),
    {
        match self {
            Fault::Plain(m) => Error::LaunchFailed(m),
            Fault::Known(e) => e,
        }
    }
}

/// What the failure of a step amounts to; nothing where the plan goes on all the same.
pub open spec fn verdict(step: StepModel, failure: FailureModel) -> Option<FaultModel> {
    match failure {
        FailureModel::NulInPath { path, message } => Some(
            FaultModel::Known(ErrorModel::MountSetup("interior NUL in path "@ + path + ": "@ + message)),
        ),
        FailureModel::NulInArgument { message } => Some(
            FaultModel::Known(ErrorModel::MountSetup("interior NUL in mount argument: "@ + message)),
        ),
        FailureModel::Refused { errno, message } => if step.invalid_ok && errno == EINVAL {
            None
        } else {
            let said = step.lead + message;
            match step.blame {
                Blame::Plain => Some(FaultModel::Plain(said)),
                Blame::Launch => Some(FaultModel::Known(ErrorModel::LaunchFailed(said))),
                Blame::Namespace => Some(FaultModel::Known(ErrorModel::NamespaceSetup(said))),
                Blame::Cgroup => Some(FaultModel::Known(ErrorModel::CgroupSetup(said))),
                Blame::Mount => Some(FaultModel::Known(ErrorModel::MountSetup(said))),
                Blame::Io => Some(FaultModel::Known(ErrorModel::Io(said))),
                Blame::Nobody => None,
            }
        },
    }
}

/// The fault that `o` holds is the one wanted, or both are none.
pub open spec fn is_fault(o: Option<Fault>, want: Option<FaultModel>) -> bool {
    match (o, want) {
        (Some(f), Some(m)) => f@ == m,
        (None, None) => true,
        _ => false,
    }
}

impl Step {
    /// A step whose refusal is reported with the reason behind `lead`.
    pub fn new(act: Act, blame: Blame, lead: &str) -> (r: Self)
        ensures
            r@ == (StepModel { act: act@, blame, lead: lead@, invalid_ok: false }),
    {
        Step { act, blame, lead: lead.to_owned(), invalid_ok: false }
    }

    /// What a failure of the step amounts to.
    pub fn judge(&self, failure: &Failure) -> (r: Option<Fault>)
        ensures
            is_fault(r, verdict(self@, failure@)),
    {
        match failure {
            Failure::NulInPath { path, message } => {
                let mut m = text::cat3("interior NUL in path ", path.as_str(), ": ");
                m.append(message.as_str());
                Some(Fault::Known(Error::MountSetup(m)))
            },
            Failure::NulInArgument { message } => {
                let mut m = "interior NUL in mount argument: ".to_owned();
                m.append(message.as_str());
                Some(Fault::Known(Error::MountSetup(m)))
            },
            Failure::Refused { errno, message } => {
                if self.invalid_ok && *errno == EINVAL {
                    return None;
                }
                let mut said = self.lead.clone();
                said.append(message.as_str());
                match self.blame {
                    Blame::Plain => Some(Fault::Plain(said)),
                    Blame::Launch => Some(Fault::Known(Error::LaunchFailed(said))),
                    Blame::Namespace => Some(Fault::Known(Error::NamespaceSetup(said))),
                    Blame::Cgroup => Some(Fault::Known(Error::CgroupSetup(said))),
                    Blame::Mount => Some(Fault::Known(Error::MountSetup(said))),
                    Blame::Io => Some(Fault::Known(Error::Io(said))),
                    Blame::Nobody => None,
                }
            },
        }
    }
}

/// Steps that are done one after the other.
#[derive(Debug)]
pub struct Plan {
    pub steps: Vec<Step>,
    /// How many steps have been handed out.
    pub at: usize,
}

/// What to do next about a plan.
#[derive(Debug)]
pub enum Next {
    /// Do the step at this place, and come back with how it went.
    Do(usize),
    /// Nothing is left to do.
    Finished,
    /// The last step failed, and the plan with it.
    Failed(Fault),
}

/// What the last step's outcome amounts to, where steps have been handed out.
pub open spec fn last_verdict(steps: Seq<StepModel>, at: int, last: Option<FailureModel>) -> Option<FaultModel> {
    match last {
        Some(f) => if 0 < at <= steps.len() {
            verdict(steps[at - 1], f)
        } else {
            None
        },
        None => None,
    }
}

impl Plan {
    /// The steps.
    pub open spec fn model(&self) -> Seq<StepModel> {
        compile::views(self.steps@)
    }

    /// Whether no more steps have been handed out than there are.
    pub open spec fn wf(&self) -> bool {
        self.at <= self.steps@.len()
    }

    /// A plan that has not been begun.
    pub fn new(steps: Vec<Step>) -> (r: Self)
        ensures
            r.wf(),
            r.at == 0,
            r.steps == steps,
    {
        Plan { steps, at: 0 }
    }

    /// Takes how the last step went, and says what comes next. The first call has no step before
    /// it, and what it is given is not looked at.
    pub fn next(&mut self, last: Option<Failure>) -> (r: Next)
        requires
            old(self).wf(),
        ensures
            final(self).wf(),
            final(self).steps == old(self).steps,
            match last_verdict(old(self).model(), old(self).at as int, compile::opt_view(last)) {
                Some(f) => (r matches Next::Failed(g) && g@ == f) && final(self).at == old(self).at,
                None => if old(self).at < old(self).steps@.len() {
                    r == Next::Do(old(self).at) && final(self).at == old(self).at + 1
                } else {
                    r is Finished && final(self).at == old(self).at
                },
            },
    {
        if let Some(failure) = &last {
            if self.at > 0 {
                if let Some(f) = self.steps[self.at - 1].judge(failure) {
                    return Next::Failed(f);
                }
            }
        }
        if self.at < self.steps.len() {
            let k: usize = self.at;
            self.at = k + 1;
            Next::Do(k)
        } else {
            Next::Finished
        }
    }
}

/// How far a plan has come once its steps went as `outcomes` says: how many were handed out, and
/// the fault that ended it.
pub open spec fn progress(steps: Seq<StepModel>, outcomes: Seq<Option<FailureModel>>) -> (int, Option<FaultModel>)
    decreases outcomes.len(),
{
    if outcomes.len() == 0 {
        (if steps.len() > 0 {
            1
        } else {
            0
        }, None)
    } else {
        let (at, fault) = progress(steps, outcomes.drop_last());
        if fault is Some {
            (at, fault)
        } else {
            match last_verdict(steps, at, outcomes.last()) {
                Some(f) => (at, Some(f)),
                None => (if at < steps.len() {
                    at + 1
                } else {
                    at
                }, None),
            }
        }
    }
}

/// A step is handed out only once every step before it has been done, or has failed in a way
/// that the plan puts up with; and steps come in their order.
pub proof fn steps_follow_each_other(steps: Seq<StepModel>, outcomes: Seq<Option<FailureModel>>, j: int)
    requires
        progress(steps, outcomes).1 is None,
        0 <= j < progress(steps, outcomes).0 - 1,
    ensures
        0 <= progress(steps, outcomes).0 <= steps.len(),
        j < outcomes.len(),
        outcomes[j] matches Some(f) ==> verdict(steps[j], f) is None,
    decreases outcomes.len(),
{
    progress_bounded(steps, outcomes);
    if outcomes.len() > 0 {
        let before = progress(steps, outcomes.drop_last());
        progress_bounded(steps, outcomes.drop_last());
        if before.1 is None {
            if j < before.0 - 1 {
                steps_follow_each_other(steps, outcomes.drop_last(), j);
            } else {
                assert(before.0 == outcomes.len());
            }
        }
    }
}

proof fn progress_bounded(steps: Seq<StepModel>, outcomes: Seq<Option<FailureModel>>)
    ensures
        0 <= progress(steps, outcomes).0 <= steps.len(),
        progress(steps, outcomes).1 is None ==> progress(steps, outcomes).0 == (if outcomes.len() < steps.len() {
            outcomes.len() + 1
        } else {
            steps.len()
        }),
    decreases outcomes.len(),
{
    if outcomes.len() > 0 {
        progress_bounded(steps, outcomes.drop_last());
    }
}

} // verus!
