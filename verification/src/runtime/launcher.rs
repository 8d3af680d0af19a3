//! Launching a payload: the parent's side, the child's side, and what they tell each other.
use vstd::prelude::*;

use crate::error::Error;
use crate::error::ErrorModel;
use crate::number;
use crate::policy::compile;
use crate::policy::compile::LandlockPlan;
use crate::policy::compile::LandlockPlanModel;
use crate::policy_ref::ExecIdentity;
use crate::runtime::abi;
use crate::runtime::abi::CloneArgs;
use crate::runtime::mounts;
use crate::runtime::plan;
use crate::runtime::plan::Act;
use crate::runtime::plan::ActModel;
use crate::runtime::plan::Blame;
use crate::runtime::plan::Failure;
use crate::runtime::plan::FailureModel;
use crate::runtime::plan::Next;
use crate::runtime::plan::Plan;
use crate::runtime::plan::Step;
use crate::runtime::plan::StepModel;
use crate::runtime::probe::KernelCaps;
use crate::text;

verus! {

/// How many user ids of the host a sandbox gets.
pub const UID_RANGE_SIZE: u32 = 65536;

/// The first of them that is given out.
pub const FIRST_UID: u32 = 100_000;

/// The user of a payload, in the sandbox's own numbering.
pub const SANDBOX_UID: u32 = 1000;

/// The group of a payload, in the sandbox's own numbering.
pub const SANDBOX_GID: u32 = 1000;

/// How a child ends that never came to run its program.
pub const CHILD_SETUP_FAILED_EXIT: i32 = 127;

/// The longest message of a child, in bytes.
pub const MAX_MESSAGE: usize = 1048576;

/// `EINTR` on Linux.
pub const EINTR: i32 = 4;

/// `CLD_EXITED`: a child ended by itself.
pub const CLD_EXITED: i32 = 1;

/// `CLD_KILLED`: a child was killed by a signal.
pub const CLD_KILLED: i32 = 2;

/// `CLD_DUMPED`: a child was killed by a signal and left a core.
pub const CLD_DUMPED: i32 = 3;

/// What a child tells its parent.
#[derive(Debug)]
pub enum ChildMsg {
    /// The confinement is complete, and these are the executables that the policy lists. The child
    /// waits for the parent's word before it runs anything.
    Ready { exec_ids: Vec<ExecIdentity> },
    Error(String),
    Exited(i32),
}

#[verifier::ext_equal]
pub enum ChildMsgModel {
    Ready { exec_ids: Seq<ExecIdentity> },
    Error(Seq<char>),
    Exited(i32),
}

impl View for ChildMsg {
    type V = ChildMsgModel;

    open spec fn view(&self) -> ChildMsgModel {
        match *self {
            ChildMsg::Ready { exec_ids } => ChildMsgModel::Ready { exec_ids: exec_ids@ },
            ChildMsg::Error(m) => ChildMsgModel::Error(m@),
            ChildMsg::Exited(c) => ChildMsgModel::Exited(c),
        }
    }
}

/// The confinement of a payload.
#[derive(Debug)]
pub struct LaunchPolicy {
    pub landlock: LandlockPlan,
    pub seccomp_profile: String,
    /// The executables of the policy, by their paths in the sandbox.
    pub exec_paths: Vec<String>,
    /// The directories of the policy whose executables are allowed.
    pub exec_prefixes: Vec<String>,
}

#[verifier::ext_equal]
pub struct LaunchPolicyModel {
    pub landlock: LandlockPlanModel,
    pub seccomp_profile: Seq<char>,
    pub exec_paths: Seq<Seq<char>>,
    pub exec_prefixes: Seq<Seq<char>>,
}

impl View for LaunchPolicy {
    type V = LaunchPolicyModel;

    open spec fn view(&self) -> LaunchPolicyModel {
        LaunchPolicyModel {
            landlock: self.landlock@,
            seccomp_profile: self.seccomp_profile@,
            exec_paths: text::texts(self.exec_paths@),
            exec_prefixes: text::texts(self.exec_prefixes@),
        }
    }
}

/// What launches payloads.
#[derive(Debug)]
pub struct Launcher {
    pub caps: KernelCaps,
    pub next_uid_base: u32,
}

/// Where a spawn was refused before there was a child to speak of.
#[derive(Debug, Clone, Copy, PartialEq, Eq, Structural)]
pub enum SpawnStage {
    Socket,
    Clone,
    /// No descriptor for the child could be had.
    Descriptor,
}

/// The flags of a payload's `clone3`: new namespaces of every sort, and a descriptor for the child.
pub open spec fn clone_flags(into_cgroup: bool) -> u64 {
    let own = abi::CLONE_NEWUSER | abi::CLONE_NEWPID | abi::CLONE_NEWNS | abi::CLONE_NEWNET | abi::CLONE_NEWIPC
        | abi::CLONE_NEWUTS | abi::CLONE_NEWCGROUP | abi::CLONE_NEWTIME | abi::CLONE_PIDFD;
    if into_cgroup {
        own | abi::CLONE_INTO_CGROUP
    } else {
        own
    }
}

/// The arguments of a payload's `clone3`.
pub open spec fn clone_args_for(into_cgroup: bool, cg_fd: i32, pidfd_slot: u64) -> CloneArgs {
    CloneArgs {
        flags: clone_flags(into_cgroup),
        pidfd: pidfd_slot,
        exit_signal: abi::SIGCHLD,
        cgroup: if into_cgroup {
            cg_fd as u64
        } else {
            0
        },
        ..abi::no_clone_args()
    }
}

/// The sentence for a spawn that was refused before there was a child.
pub open spec fn spawn_refusal(stage: SpawnStage, m: Seq<char>) -> ErrorModel {
    match stage {
        SpawnStage::Socket => ErrorModel::LaunchFailed("sync socketpair: "@ + m),
        SpawnStage::Clone => ErrorModel::LaunchFailed("clone3: "@ + m),
        SpawnStage::Descriptor => ErrorModel::LaunchFailed("pidfd_open failed"@),
    }
}

impl Launcher {
    /// A launcher that has given out no user ids yet.
    pub fn new(caps: KernelCaps) -> (r: Self)
        ensures
            r.caps == caps,
            r.next_uid_base == FIRST_UID,
    {
        Launcher { caps, next_uid_base: FIRST_UID }
    }

    /// Gives out the next range of user ids: its first one.
    pub fn reserve_uids(&mut self) -> (r: u32)
        ensures
            r == old(self).next_uid_base,
            final(self).next_uid_base == (old(self).next_uid_base + UID_RANGE_SIZE) % 0x100000000,
            final(self).caps == old(self).caps,
    {
        let base: u32 = self.next_uid_base;
        self.next_uid_base = base.wrapping_add(UID_RANGE_SIZE);
        base
    }

    /// The arguments of a payload's `clone3`. The child is born into its cgroup where the kernel
    /// can do that.
    pub fn clone_args(&self, cg_fd: i32, pidfd_slot: u64) -> (r: CloneArgs)
        ensures
            r == clone_args_for(self.caps.clone_into_cgroup, cg_fd, pidfd_slot),
    {
        let mut args = CloneArgs::default();
        args.flags = abi::CLONE_NEWUSER | abi::CLONE_NEWPID | abi::CLONE_NEWNS | abi::CLONE_NEWNET | abi::CLONE_NEWIPC
            | abi::CLONE_NEWUTS | abi::CLONE_NEWCGROUP | abi::CLONE_NEWTIME | abi::CLONE_PIDFD;
        args.exit_signal = abi::SIGCHLD;
        if self.caps.clone_into_cgroup {
            args.flags = args.flags | abi::CLONE_INTO_CGROUP;
            args.cgroup = cg_fd as u64;
        }
        args.pidfd = pidfd_slot;
        args
    }

    /// The error for a spawn that was refused before there was a child.
    pub fn refused(stage: SpawnStage, m: &str) -> (r: Error)
        ensures
            r@ == spawn_refusal(stage, m@),
    {
        match stage {
            SpawnStage::Socket => {
                let mut t = "sync socketpair: ".to_owned();
                t.append(m);
                Error::LaunchFailed(t)
            },
            SpawnStage::Clone => {
                let mut t = "clone3: ".to_owned();
                t.append(m);
                Error::LaunchFailed(t)
            },
            SpawnStage::Descriptor => Error::LaunchFailed("pidfd_open failed".to_owned()),
        }
    }

    /// Takes up the parent's side of a launch, once the child is there.
    pub fn spawn(&self, pid: i32, uid_base: u32) -> (r: Launch)
        requires
            pid >= 0,
        ensures
            r.wf(),
            r.phase == LaunchPhase::Preparing,
            r.prep.at == 0,
            r.prep.model() == parent_steps(pid, uid_base, self.caps.clone_into_cgroup),
    {
        let mut steps = Self::write_userns_maps(pid, uid_base);
        if !self.caps.clone_into_cgroup {
            let more = Self::join_cgroup_from_parent(pid);
            mounts::push_steps(&mut steps, more);
        }
        Launch { phase: LaunchPhase::Preparing, prep: Plan::new(steps) }
    }

    /// How to give the child its user and group ids.
    fn write_userns_maps(pid: i32, uid_base: u32) -> (r: Vec<Step>)
        requires
            pid >= 0,
        ensures
            compile::views(r@) == userns_steps(pid, uid_base),
    {
        let p = number::format_u64(pid as u64);
        let b = number::format_u64(uid_base as u64);
        let s = number::format_u64(UID_RANGE_SIZE as u64);
        let map = text::cat5("0 ", b.as_str(), " ", s.as_str(), "\n");
        let mut v: Vec<Step> = Vec::new();
        v.push(
            Step::new(
                Act::WriteFile { path: text::cat3("/proc/", p.as_str(), "/setgroups"), contents: "deny".to_owned() },
                Blame::Namespace,
                "setgroups: ",
            ),
        );
        v.push(
            Step::new(
                Act::WriteFile { path: text::cat3("/proc/", p.as_str(), "/uid_map"), contents: map.clone() },
                Blame::Namespace,
                "uid_map: ",
            ),
        );
        v.push(
            Step::new(
                Act::WriteFile { path: text::cat3("/proc/", p.as_str(), "/gid_map"), contents: map },
                Blame::Namespace,
                "gid_map: ",
            ),
        );
        proof {
            assert(compile::views(v@) =~= userns_steps(pid, uid_base));
        }
        v
    }

    /// How to put the child into its cgroup.
    fn join_cgroup_from_parent(pid: i32) -> (r: Vec<Step>)
        ensures
            compile::views(r@) == join_steps(pid),
    {
        let mut v: Vec<Step> = Vec::new();
        v.push(Step::new(Act::OpenProcs, Blame::Cgroup, "openat cgroup.procs: "));
        v.push(Step::new(Act::WriteProcs(pid), Blame::Cgroup, "write cgroup.procs: "));
        proof {
            assert(compile::views(v@) =~= join_steps(pid));
        }
        v
    }
}

/// The map of a sandbox's user ids: all of its range, from 0 on.
pub open spec fn id_map(uid_base: u32) -> Seq<char> {
    "0 "@ + number::decimal(uid_base as nat) + " "@ + number::decimal(UID_RANGE_SIZE as nat) + "\n"@
}

/// Writes one of a child's namespace files.
pub open spec fn userns_step(pid: i32, name: Seq<char>, contents: Seq<char>, lead: Seq<char>) -> StepModel {
    StepModel {
        act: ActModel::WriteFile { path: "/proc/"@ + number::decimal(pid as nat) + name, contents },
        blame: Blame::Namespace,
        lead,
        invalid_ok: false,
    }
}

/// Gives a child its user and group ids.
pub open spec fn userns_steps(pid: i32, uid_base: u32) -> Seq<StepModel> {
    seq![
        userns_step(pid, "/setgroups"@, "deny"@, "setgroups: "@),
        userns_step(pid, "/uid_map"@, id_map(uid_base), "uid_map: "@),
        userns_step(pid, "/gid_map"@, id_map(uid_base), "gid_map: "@),
    ]
}

/// Puts a child into its cgroup.
pub open spec fn join_steps(pid: i32) -> Seq<StepModel> {
    seq![
        StepModel {
            act: ActModel::OpenProcs,
            blame: Blame::Cgroup,
            lead: "openat cgroup.procs: "@,
            invalid_ok: false,
        },
        StepModel {
            act: ActModel::WriteProcs(pid),
            blame: Blame::Cgroup,
            lead: "write cgroup.procs: "@,
            invalid_ok: false,
        },
    ]
}

/// What the parent does before it lets the child go on: the ids, and the cgroup where the child
/// was not born into it.
pub open spec fn parent_steps(pid: i32, uid_base: u32, into_cgroup: bool) -> Seq<StepModel> {
    if into_cgroup {
        userns_steps(pid, uid_base)
    } else {
        userns_steps(pid, uid_base) + join_steps(pid)
    }
}

/// How far the parent's side of a launch is.
#[derive(Debug, Clone, Copy, PartialEq, Eq, Structural)]
pub enum LaunchPhase {
    /// The parent prepares the child's namespaces and cgroup.
    Preparing,
    /// The child is told to go on.
    Waking,
    /// The parent waits for the child's message.
    Listening,
    /// The policy is installed.
    Installing,
    /// The child is told to run its program.
    Releasing,
    Over,
}

/// The parent's side of a launch.
#[derive(Debug)]
pub struct Launch {
    pub phase: LaunchPhase,
    pub prep: Plan,
}

/// What became of the parent's last action.
#[derive(Debug)]
pub enum LaunchEvent {
    Done,
    Failed(Failure),
    /// The child's message.
    Heard(ChildMsg),
    /// The child's message did not come, or the policy was not installed.
    Refused(Error),
}

#[verifier::ext_equal]
pub enum LaunchEventModel {
    Done,
    Failed(FailureModel),
    Heard(ChildMsgModel),
    Refused(ErrorModel),
}

impl View for LaunchEvent {
    type V = LaunchEventModel;

    open spec fn view(&self) -> LaunchEventModel {
        match *self {
            LaunchEvent::Done => LaunchEventModel::Done,
            LaunchEvent::Failed(f) => LaunchEventModel::Failed(f@),
            LaunchEvent::Heard(m) => LaunchEventModel::Heard(m@),
            LaunchEvent::Refused(e) => LaunchEventModel::Refused(e@),
        }
    }
}

/// What the parent does.
#[derive(Debug)]
pub enum LaunchAction {
    /// Do this step of the preparation.
    Do(usize),
    /// Send the byte that lets the child go on.
    Wake,
    /// Wait for the child's message.
    Listen,
    /// Install the policy, with these executables allowed.
    Install(Vec<ExecIdentity>),
    /// Send the byte that lets the child run its program.
    Release,
    /// The payload runs.
    Run,
    /// The launch failed. Where `kill` is set the child is killed first.
    Fail { error: Error, kill: bool },
}

#[verifier::ext_equal]
pub enum LaunchActionModel {
    Do(int),
    Wake,
    Listen,
    Install(Seq<ExecIdentity>),
    Release,
    Run,
    Fail { error: ErrorModel, kill: bool },
}

impl View for LaunchAction {
    type V = LaunchActionModel;

    open spec fn view(&self) -> LaunchActionModel {
        match *self {
            LaunchAction::Do(i) => LaunchActionModel::Do(i as int),
            LaunchAction::Wake => LaunchActionModel::Wake,
            LaunchAction::Listen => LaunchActionModel::Listen,
            LaunchAction::Install(ids) => LaunchActionModel::Install(ids@),
            LaunchAction::Release => LaunchActionModel::Release,
            LaunchAction::Run => LaunchActionModel::Run,
            LaunchAction::Fail { error, kill } => LaunchActionModel::Fail { error: error@, kill },
        }
    }
}

/// Where a launch stands: its phase, and how many steps of the preparation were handed out.
#[verifier::ext_equal]
pub struct LaunchState {
    pub phase: LaunchPhase,
    pub at: int,
}

/// Whether an event is one that the phase can bring.
pub open spec fn fits(phase: LaunchPhase, event: LaunchEventModel) -> bool {
    match phase {
        LaunchPhase::Preparing => event is Done || event is Failed,
        LaunchPhase::Waking => event is Done || event matches LaunchEventModel::Failed(
            FailureModel::Refused { .. },
        ),
        LaunchPhase::Listening => event is Heard || event is Refused,
        LaunchPhase::Installing => event is Done || event is Refused,
        LaunchPhase::Releasing => event is Done || event matches LaunchEventModel::Failed(
            FailureModel::Refused { .. },
        ),
        LaunchPhase::Over => false,
    }
}

/// The reason that a failure gives.
pub open spec fn reason(event: LaunchEventModel) -> Seq<char> {
    match event {
        LaunchEventModel::Failed(FailureModel::Refused { errno: _, message }) => message,
        _ => Seq::empty(),
    }
}

/// The failure in an event.
pub open spec fn failure_in(event: LaunchEventModel) -> Option<FailureModel> {
    match event {
        LaunchEventModel::Failed(f) => Some(f),
        _ => None,
    }
}

/// A launch that failed.
pub open spec fn failed(error: ErrorModel, kill: bool) -> (LaunchState, LaunchActionModel) {
    (LaunchState { phase: LaunchPhase::Over, at: 0 }, LaunchActionModel::Fail { error, kill })
}

/// What the parent does about an event, and where the launch stands then.
pub open spec fn launch_step(prep: Seq<StepModel>, s: LaunchState, event: LaunchEventModel) -> (
    LaunchState,
    LaunchActionModel,
) {
    match s.phase {
        LaunchPhase::Preparing => match plan::last_verdict(prep, s.at, failure_in(event)) {
            Some(f) => failed(plan::fault_error(f), true),
            None => if s.at < prep.len() {
                (LaunchState { phase: LaunchPhase::Preparing, at: s.at + 1 }, LaunchActionModel::Do(s.at))
            } else {
                (LaunchState { phase: LaunchPhase::Waking, at: s.at }, LaunchActionModel::Wake)
            },
        },
        LaunchPhase::Waking => if event is Done {
            (LaunchState { phase: LaunchPhase::Listening, at: s.at }, LaunchActionModel::Listen)
        } else {
            failed(ErrorModel::LaunchFailed("sync send: "@ + reason(event)), false)
        },
        LaunchPhase::Listening => match event {
            LaunchEventModel::Heard(ChildMsgModel::Ready { exec_ids }) => (
                LaunchState { phase: LaunchPhase::Installing, at: s.at },
                LaunchActionModel::Install(exec_ids),
            ),
            LaunchEventModel::Heard(ChildMsgModel::Error(m)) => failed(
                ErrorModel::LaunchFailed("child error: "@ + m),
                true,
            ),
            LaunchEventModel::Heard(ChildMsgModel::Exited(code)) => failed(
                ErrorModel::LaunchFailed("child exited early: "@ + number::signed_decimal(code as int)),
                false,
            ),
            LaunchEventModel::Refused(e) => failed(e, false),
            _ => (s, LaunchActionModel::Listen),
        },
        LaunchPhase::Installing => match event {
            LaunchEventModel::Refused(e) => failed(e, true),
            _ => (LaunchState { phase: LaunchPhase::Releasing, at: s.at }, LaunchActionModel::Release),
        },
        LaunchPhase::Releasing => if event is Done {
            (LaunchState { phase: LaunchPhase::Over, at: s.at }, LaunchActionModel::Run)
        } else {
            failed(ErrorModel::LaunchFailed("release child: "@ + reason(event)), true)
        },
        LaunchPhase::Over => (s, LaunchActionModel::Listen),
    }
}

fn because(lead: &str, failure: &Failure) -> (r: Error)
    requires
        failure is Refused,
    ensures
        r@ == ErrorModel::LaunchFailed(lead@ + reason(LaunchEventModel::Failed(failure@))),
{
    let mut t = lead.to_owned();
    if let Failure::Refused { errno: _, message } = failure {
        t.append(message.as_str());
    }
    Error::LaunchFailed(t)
}

impl Launch {
    /// Whether no more steps of the preparation were handed out than there are.
    pub open spec fn wf(&self) -> bool {
        self.prep.wf()
    }

    /// Where the launch stands.
    pub open spec fn state(&self) -> LaunchState {
        LaunchState { phase: self.phase, at: self.prep.at as int }
    }

    /// Takes what became of the last action, and says what the parent does now. The first call is
    /// made with `Done`.
    pub fn next(&mut self, event: LaunchEvent) -> (r: LaunchAction)
        requires
            old(self).wf(),
            fits(old(self).phase, event@),
        ensures
            final(self).wf(),
            final(self).prep.steps == old(self).prep.steps,
            ({
                let (then, action) = launch_step(old(self).prep.model(), old(self).state(), event@);
                &&& r@ == action
                &&& final(self).phase == then.phase
                &&& then.phase != LaunchPhase::Over ==> final(self).state() == then
            }),
    {
        match self.phase {
            LaunchPhase::Preparing => {
                let last: Option<Failure> = match event {
                    LaunchEvent::Failed(f) => Some(f),
                    _ => None,
                };
                match self.prep.next(last) {
                    Next::Do(i) => LaunchAction::Do(i),
                    Next::Finished => {
                        self.phase = LaunchPhase::Waking;
                        LaunchAction::Wake
                    },
                    Next::Failed(f) => {
                        self.phase = LaunchPhase::Over;
                        LaunchAction::Fail { error: f.into_error(), kill: true }
                    },
                }
            },
            LaunchPhase::Waking => match event {
                LaunchEvent::Failed(f) => {
                    self.phase = LaunchPhase::Over;
                    LaunchAction::Fail { error: because("sync send: ", &f), kill: false }
                },
                _ => {
                    self.phase = LaunchPhase::Listening;
                    LaunchAction::Listen
                },
            },
            LaunchPhase::Listening => match event {
                LaunchEvent::Heard(ChildMsg::Ready { exec_ids }) => {
                    self.phase = LaunchPhase::Installing;
                    LaunchAction::Install(exec_ids)
                },
                LaunchEvent::Heard(ChildMsg::Error(m)) => {
                    self.phase = LaunchPhase::Over;
                    let mut t = "child error: ".to_owned();
                    t.append(m.as_str());
                    LaunchAction::Fail { error: Error::LaunchFailed(t), kill: true }
                },
                LaunchEvent::Heard(ChildMsg::Exited(code)) => {
                    self.phase = LaunchPhase::Over;
                    let mut t = "child exited early: ".to_owned();
                    t.append(number::format_i64(code as i64).as_str());
                    LaunchAction::Fail { error: Error::LaunchFailed(t), kill: false }
                },
                LaunchEvent::Refused(e) => {
                    self.phase = LaunchPhase::Over;
                    LaunchAction::Fail { error: e, kill: false }
                },
                _ => LaunchAction::Listen,
            },
            LaunchPhase::Installing => match event {
                LaunchEvent::Refused(e) => {
                    self.phase = LaunchPhase::Over;
                    LaunchAction::Fail { error: e, kill: true }
                },
                _ => {
                    self.phase = LaunchPhase::Releasing;
                    LaunchAction::Release
                },
            },
            LaunchPhase::Releasing => {
                self.phase = LaunchPhase::Over;
                match event {
                    LaunchEvent::Failed(f) => LaunchAction::Fail { error: because("release child: ", &f), kill: true },
                    _ => LaunchAction::Run,
                }
            },
            LaunchPhase::Over => LaunchAction::Listen,
        }
    }
}

/// A whole launch: where it stands after some events, and what the parent did about each.
pub open spec fn history(prep: Seq<StepModel>, events: Seq<LaunchEventModel>) -> (
    LaunchState,
    Seq<LaunchActionModel>,
)
    decreases events.len(),
{
    if events.len() == 0 {
        (LaunchState { phase: LaunchPhase::Preparing, at: 0 }, Seq::empty())
    } else {
        let (s, actions) = history(prep, events.drop_last());
        let (t, a) = launch_step(prep, s, events.last());
        (t, actions.push(a))
    }
}

/// Whether every event of a launch is one that the launch could bring at that point.
pub open spec fn orderly(prep: Seq<StepModel>, events: Seq<LaunchEventModel>) -> bool
    decreases events.len(),
{
    events.len() == 0 || (orderly(prep, events.drop_last()) && fits(
        history(prep, events.drop_last()).0.phase,
        events.last(),
    ))
}

proof fn last_action_tells_the_phase(prep: Seq<StepModel>, events: Seq<LaunchEventModel>)
    requires
        orderly(prep, events),
    ensures
        ({
            let (s, actions) = history(prep, events);
            &&& actions.len() == events.len()
            &&& match s.phase {
                LaunchPhase::Preparing => actions.len() == 0 || actions.last() is Do,
                LaunchPhase::Waking => actions.len() > 0 && actions.last() is Wake,
                LaunchPhase::Listening => actions.len() > 0 && actions.last() is Listen,
                LaunchPhase::Installing => actions.len() > 0 && actions.last() is Install,
                LaunchPhase::Releasing => actions.len() > 0 && actions.last() is Release,
                LaunchPhase::Over => actions.len() > 0 && (actions.last() is Run || actions.last() is Fail),
            }
        }),
    decreases events.len(),
{
    if events.len() > 0 {
        last_action_tells_the_phase(prep, events.drop_last());
    }
}

/// The child is told to run its program only once the policy was installed with the executables
/// that the child itself reported, and the payload counts as running only once the child was told.
pub proof fn nothing_runs_before_the_policy(prep: Seq<StepModel>, events: Seq<LaunchEventModel>)
    requires
        orderly(prep, events),
        events.len() > 0,
    ensures
        history(prep, events).1.len() == events.len(),
        history(prep, events).1.last() is Release ==> {
            &&& events.len() >= 2
            &&& events.last() is Done
            &&& events[events.len() - 2] matches LaunchEventModel::Heard(ChildMsgModel::Ready { exec_ids })
                && history(prep, events).1[events.len() - 2] == LaunchActionModel::Install(exec_ids)
        },
        history(prep, events).1.last() is Run ==> {
            &&& events.len() >= 2
            &&& events.last() is Done
            &&& history(prep, events).1[events.len() - 2] is Release
        },
    decreases events.len(),
{
    let front = events.drop_last();
    last_action_tells_the_phase(prep, events);
    last_action_tells_the_phase(prep, front);
    let (s, actions) = history(prep, front);
    assert(history(prep, events).1 =~= actions.push(history(prep, events).1.last()));
    if s.phase == LaunchPhase::Installing {
        let before = front.drop_last();
        reveal_with_fuel(orderly, 3);
        last_action_tells_the_phase(prep, before);
        assert(actions =~= history(prep, before).1.push(actions.last()));
        assert(events[events.len() - 2] == front.last());
    }
}

/// No failure leaves the child alive while its namespaces are prepared, nor once it has reported
/// that it is ready.
pub proof fn a_failed_install_kills(prep: Seq<StepModel>, events: Seq<LaunchEventModel>)
    requires
        orderly(prep, events),
        events.len() > 0,
        history(prep, events).1.last() is Fail,
        history(prep, events.drop_last()).0.phase is Installing || history(prep, events.drop_last()).0.phase
            is Releasing || history(prep, events.drop_last()).0.phase is Preparing,
    ensures
        history(prep, events).1.last()->kill,
{
}

/// The child sees the byte that lets it go on only after its ids were written and it is in its
/// cgroup.
pub proof fn nothing_wakes_before_the_namespaces(prep: Seq<StepModel>, events: Seq<LaunchEventModel>)
    requires
        orderly(prep, events),
        events.len() > 0,
        history(prep, events).1.last() is Wake,
    ensures
        events.len() == prep.len() + 1,
        forall|k: int|
            0 <= k < prep.len() ==> #[trigger] history(prep, events).1[k] == LaunchActionModel::Do(k),
        forall|k: int|
            0 <= k < prep.len() ==> (failure_in(#[trigger] events[k + 1]) matches Some(f) ==> plan::verdict(prep[k], f)
                is None),
{
    last_action_tells_the_phase(prep, events.drop_last());
    preparation_so_far(prep, events.drop_last());
    let front = events.drop_last();
    let (s, actions) = history(prep, front);
    assert(history(prep, events).1 =~= actions.push(LaunchActionModel::Wake));
    assert forall|k: int| 0 <= k < prep.len() implies (failure_in(#[trigger] events[k + 1]) matches Some(f)
        ==> plan::verdict(prep[k], f) is None) by {
        if k + 1 < front.len() {
            assert(front[k + 1] == events[k + 1]);
        } else {
            assert(events[k + 1] == events.last());
        }
    }
}

proof fn preparation_so_far(prep: Seq<StepModel>, events: Seq<LaunchEventModel>)
    requires
        orderly(prep, events),
        history(prep, events).0.phase == LaunchPhase::Preparing,
    ensures
        history(prep, events).1.len() == events.len(),
        history(prep, events).0.at == events.len(),
        events.len() <= prep.len(),
        forall|k: int|
            0 <= k < events.len() ==> #[trigger] history(prep, events).1[k] == LaunchActionModel::Do(k),
        forall|k: int|
            0 < k < events.len() ==> (failure_in(#[trigger] events[k]) matches Some(f) ==> plan::verdict(
                prep[k - 1],
                f,
            ) is None),
    decreases events.len(),
{
    if events.len() > 0 {
        let front = events.drop_last();
        preparation_so_far(prep, front);
        assert forall|k: int| 0 < k < events.len() implies (failure_in(#[trigger] events[k]) matches Some(f)
            ==> plan::verdict(prep[k - 1], f) is None) by {
            if k < front.len() {
                assert(front[k] == events[k]);
            }
        }
    }
}

/// The first user id of the n-th range that a launcher gives out.
pub open spec fn nth_base(n: nat) -> int {
    (FIRST_UID + n * UID_RANGE_SIZE) % 0x100000000
}

/// Giving out ranges one after the other gives the ranges in their order.
pub proof fn ranges_follow_each_other(n: nat)
    ensures
        nth_base(0) == FIRST_UID,
        nth_base(n + 1) == (nth_base(n) + UID_RANGE_SIZE) % 0x100000000,
{
    let x = FIRST_UID + n * UID_RANGE_SIZE;
    assert((n + 1) * UID_RANGE_SIZE == n * UID_RANGE_SIZE + UID_RANGE_SIZE) by (nonlinear_arith);
    assert((x + UID_RANGE_SIZE) % 0x100000000 == (x % 0x100000000 + UID_RANGE_SIZE) % 0x100000000);
}

/// No two sandboxes share a user id of the host, as long as the ids do not run out.
pub proof fn ranges_do_not_overlap(i: nat, j: nat)
    requires
        i < j,
        FIRST_UID + (j + 1) * UID_RANGE_SIZE <= 0x100000000,
    ensures
        nth_base(i) >= FIRST_UID,
        nth_base(i) + UID_RANGE_SIZE <= nth_base(j),
{
    assert(i * UID_RANGE_SIZE + UID_RANGE_SIZE <= j * UID_RANGE_SIZE) by (nonlinear_arith)
        requires
            i < j,
    ;
    assert(j * UID_RANGE_SIZE + UID_RANGE_SIZE == (j + 1) * UID_RANGE_SIZE) by (nonlinear_arith);
    assert(0 <= i * UID_RANGE_SIZE) by (nonlinear_arith);
}

/// A payload shares no namespace with the host.
pub proof fn every_namespace_is_new(into_cgroup: bool)
    ensures
        clone_flags(into_cgroup) & abi::CLONE_NEWUSER == abi::CLONE_NEWUSER,
        clone_flags(into_cgroup) & abi::CLONE_NEWPID == abi::CLONE_NEWPID,
        clone_flags(into_cgroup) & abi::CLONE_NEWNS == abi::CLONE_NEWNS,
        clone_flags(into_cgroup) & abi::CLONE_NEWNET == abi::CLONE_NEWNET,
        clone_flags(into_cgroup) & abi::CLONE_NEWIPC == abi::CLONE_NEWIPC,
        clone_flags(into_cgroup) & abi::CLONE_NEWUTS == abi::CLONE_NEWUTS,
        clone_flags(into_cgroup) & abi::CLONE_NEWCGROUP == abi::CLONE_NEWCGROUP,
        clone_flags(into_cgroup) & abi::CLONE_NEWTIME == abi::CLONE_NEWTIME,
        clone_flags(into_cgroup) & abi::CLONE_PIDFD == abi::CLONE_PIDFD,
        (clone_flags(into_cgroup) & abi::CLONE_INTO_CGROUP == abi::CLONE_INTO_CGROUP) == into_cgroup,
{
    assert(abi::CLONE_NEWUSER | abi::CLONE_NEWPID | abi::CLONE_NEWNS | abi::CLONE_NEWNET | abi::CLONE_NEWIPC
        | abi::CLONE_NEWUTS | abi::CLONE_NEWCGROUP | abi::CLONE_NEWTIME | abi::CLONE_PIDFD == 0x7e021080u64)
        by (bit_vector);
    assert(0x7e021080u64 | abi::CLONE_INTO_CGROUP == 0x27e021080u64) by (bit_vector);
    let f: u64 = clone_flags(into_cgroup);
    assert(f & abi::CLONE_NEWUSER == abi::CLONE_NEWUSER && f & abi::CLONE_NEWPID == abi::CLONE_NEWPID && f
        & abi::CLONE_NEWNS == abi::CLONE_NEWNS && f & abi::CLONE_NEWNET == abi::CLONE_NEWNET && f & abi::CLONE_NEWIPC
        == abi::CLONE_NEWIPC && f & abi::CLONE_NEWUTS == abi::CLONE_NEWUTS && f & abi::CLONE_NEWCGROUP
        == abi::CLONE_NEWCGROUP && f & abi::CLONE_NEWTIME == abi::CLONE_NEWTIME && f & abi::CLONE_PIDFD
        == abi::CLONE_PIDFD) by (bit_vector)
        requires
            f == 0x7e021080u64 || f == 0x27e021080u64,
    ;
    assert(0x7e021080u64 & abi::CLONE_INTO_CGROUP == 0) by (bit_vector);
    assert(0x27e021080u64 & abi::CLONE_INTO_CGROUP == abi::CLONE_INTO_CGROUP) by (bit_vector);
}

} // verus!
