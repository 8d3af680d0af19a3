//! The child's side of a launch: from birth to the payload.
use vstd::prelude::*;

use crate::error::Error;
use crate::error::ErrorModel;
use crate::paths;
use crate::policy::compile;
use crate::runtime::abi;
use crate::runtime::caps;
use crate::runtime::landlock;
use crate::runtime::launcher;
use crate::runtime::launcher::ChildMsg;
use crate::runtime::launcher::LaunchPolicy;
use crate::runtime::launcher::LaunchPolicyModel;
use crate::runtime::launcher::Launcher;
use crate::runtime::mounts;
use crate::runtime::plan;
use crate::runtime::plan::Act;
use crate::runtime::plan::ActModel;
use crate::runtime::plan::Blame;
use crate::runtime::plan::FailureModel;
use crate::runtime::plan::Step;
use crate::runtime::plan::StepModel;
use crate::runtime::rootfs;
use crate::runtime::rootfs::Rootfs;
use crate::runtime::rootfs::RootfsModel;
use crate::text;
use crate::wire;

verus! {

/// Installs the system call filter of a profile.
pub open spec fn filter_steps(profile: Seq<char>) -> Seq<StepModel> {
    seq![caps::launch_step(ActModel::ChooseFilter(profile), ""@)] + caps::no_new_privs_steps() + seq![
        caps::launch_step(ActModel::FilterCalls, "seccomp: "@),
    ]
}

/// Builds the sandbox's file system and moves into it. The host's devices are bound while the host
/// can still be seen.
pub open spec fn build_steps(r: RootfsModel) -> Seq<StepModel> {
    mounts::private_steps() + seq![rootfs::overlay_step(r)] + mounts::proc_steps(r.merged) + mounts::sys_steps(
        r.merged,
    ) + mounts::tmp_steps(r.merged) + mounts::dev_steps(r.merged) + seq![
        mounts::plain_step(ActModel::MakeDirs(paths::joined(r.merged, "workspace"@)), "mkdir workspace: "@),
    ] + mounts::pivot_steps(r.merged) + seq![mounts::plain_step(ActModel::CollectExecutables, ""@)]
}

/// Gives up, one after the other, all that the payload is not to have.
pub open spec fn restrict_steps(p: LaunchPolicyModel) -> Seq<StepModel> {
    caps::drop_steps() + landlock::landlock_steps(p.landlock) + filter_steps(p.seccomp_profile)
        + caps::unprivileged_steps(launcher::SANDBOX_UID, launcher::SANDBOX_GID) + caps::clear_steps()
}

/// All that the child does before it reports that it is ready.
pub open spec fn confinement_steps(r: RootfsModel, p: LaunchPolicyModel) -> Seq<StepModel> {
    seq![mounts::plain_step(ActModel::AwaitByte, "sync read: "@)] + caps::root_steps() + caps::no_new_privs_steps()
        + build_steps(r) + restrict_steps(p)
}

/// All that the child does from its report on: it waits for the parent's word, and runs the program.
pub open spec fn release_steps(cmd: Seq<char>) -> Seq<StepModel> {
    seq![
        mounts::plain_step(ActModel::ReportReady, "send ready: "@),
        mounts::plain_step(ActModel::AwaitByte, "wait for policy install: "@),
        mounts::plain_step(ActModel::PrepareCommand, "CString cmd: "@),
        mounts::plain_step(ActModel::PrepareArguments, "CString arg: "@),
        mounts::plain_step(ActModel::PrepareEnvironment, "CString env: "@),
        mounts::plain_step(ActModel::Execute(cmd), "execve("@ + cmd + ") failed: "@),
    ]
}

/// All that the child does.
pub open spec fn child_steps(r: RootfsModel, p: LaunchPolicyModel, cmd: Seq<char>) -> Seq<StepModel> {
    confinement_steps(r, p) + release_steps(cmd)
}

fn install_filter(profile: &str) -> (r: Vec<Step>)
    ensures
        compile::views(r@) == filter_steps(profile@),
{
    let mut v: Vec<Step> = Vec::new();
    v.push(Step::new(Act::ChooseFilter(profile.to_owned()), Blame::Launch, ""));
    mounts::push_steps(&mut v, caps::set_no_new_privs());
    let ghost done = compile::views(v@);
    v.push(Step::new(Act::FilterCalls, Blame::Launch, "seccomp: "));
    proof {
        assert(compile::views(v@) =~= done.push(caps::launch_step(ActModel::FilterCalls, "seccomp: "@)));
        assert(compile::views(v@) =~= filter_steps(profile@));
    }
    v
}

fn build(rootfs: &Rootfs) -> (r: Vec<Step>)
    ensures
        compile::views(r@) == build_steps(rootfs@),
{
    let merged: &str = rootfs.merged.as_str();
    let mut v = mounts::remount_root_private();
    let ghost done = compile::views(v@);
    v.push(rootfs.mount_overlay());
    proof {
        assert(compile::views(v@) =~= done + seq![rootfs::overlay_step(rootfs@)]);
    }
    mounts::push_steps(&mut v, mounts::mount_proc(merged));
    mounts::push_steps(&mut v, mounts::mount_sys(merged));
    mounts::push_steps(&mut v, mounts::mount_tmp(merged));
    mounts::push_steps(&mut v, mounts::mount_dev(merged));
    let ghost done = compile::views(v@);
    mounts::push_plain(&mut v, Act::MakeDirs(paths::join(merged, "workspace")), "mkdir workspace: ");
    proof {
        assert(compile::views(v@) =~= done + seq![
            mounts::plain_step(ActModel::MakeDirs(paths::joined(merged@, "workspace"@)), "mkdir workspace: "@),
        ]);
    }
    mounts::push_steps(&mut v, mounts::pivot_into(merged));
    let ghost done = compile::views(v@);
    mounts::push_plain(&mut v, Act::CollectExecutables, "");
    proof {
        assert(compile::views(v@) =~= done + seq![mounts::plain_step(ActModel::CollectExecutables, ""@)]);
    }
    v
}

fn restrict(policy: &LaunchPolicy) -> (r: Vec<Step>)
    ensures
        compile::views(r@) == restrict_steps(policy@),
{
    let mut v = caps::drop_bounding_set_and_ambient();
    mounts::push_steps(&mut v, landlock::apply_landlock(&policy.landlock));
    mounts::push_steps(&mut v, install_filter(policy.seccomp_profile.as_str()));
    mounts::push_steps(&mut v, caps::drop_to_unprivileged(launcher::SANDBOX_UID, launcher::SANDBOX_GID));
    mounts::push_steps(&mut v, caps::finish_dropping_capabilities());
    v
}

fn release(cmd: &str) -> (r: Vec<Step>)
    ensures
        compile::views(r@) == release_steps(cmd@),
{
    let mut v: Vec<Step> = Vec::new();
    mounts::push_plain(&mut v, Act::ReportReady, "send ready: ");
    mounts::push_plain(&mut v, Act::AwaitByte, "wait for policy install: ");
    mounts::push_plain(&mut v, Act::PrepareCommand, "CString cmd: ");
    mounts::push_plain(&mut v, Act::PrepareArguments, "CString arg: ");
    mounts::push_plain(&mut v, Act::PrepareEnvironment, "CString env: ");
    mounts::push_plain(&mut v, Act::Execute(cmd.to_owned()), text::cat3("execve(", cmd, ") failed: ").as_str());
    proof {
        assert(compile::views(v@) =~= release_steps(cmd@));
    }
    v
}

impl Launcher {
    /// All that the child does, from its birth to the payload. A fault ends it with the fault's
    /// sentence as its message to the parent.
    pub fn child_setup(rootfs: &Rootfs, policy: &LaunchPolicy, cmd: &str) -> (r: Vec<Step>)
        ensures
            compile::views(r@) == child_steps(rootfs@, policy@, cmd@),
    {
        let mut v: Vec<Step> = Vec::new();
        mounts::push_plain(&mut v, Act::AwaitByte, "sync read: ");
        proof {
            assert(compile::views(v@) =~= seq![mounts::plain_step(ActModel::AwaitByte, "sync read: "@)]);
        }
        mounts::push_steps(&mut v, caps::become_namespace_root());
        mounts::push_steps(&mut v, caps::set_no_new_privs());
        mounts::push_steps(&mut v, build(rootfs));
        mounts::push_steps(&mut v, restrict(policy));
        mounts::push_steps(&mut v, release(cmd));
        v
    }

    /// The arguments of the payload: the command itself, and those behind it.
    pub fn exec_args(cmd: &str, args: &Vec<String>) -> (r: Vec<String>)
        ensures
            text::texts(r@) == seq![cmd@] + text::texts(args@),
    {
        let mut v: Vec<String> = Vec::new();
        v.push(cmd.to_owned());
        let mut rest = text::clone_texts(args);
        let ghost more = text::texts(rest@);
        v.append(&mut rest);
        proof {
            assert(text::texts(v@) =~= seq![cmd@] + more);
        }
        v
    }

    /// The environment of the payload.
    pub fn exec_env(env: &Vec<(String, String)>) -> (r: Vec<String>)
        ensures
            text::texts(r@) == env_texts(env@),
    {
        let mut v: Vec<String> = Vec::new();
        let mut i: usize = 0;
        while i < env.len()
            invariant
                i <= env@.len(),
                text::texts(v@) == env_texts(env@).take(i as int),
            decreases env@.len() - i,
        {
            let ghost done = text::texts(v@);
            v.push(text::cat3(env[i].0.as_str(), "=", env[i].1.as_str()));
            proof {
                let all = env_texts(env@);
                assert(text::texts(v@) =~= done.push(all[i as int]));
                assert(all.take(i + 1) =~= all.take(i as int).push(all[i as int]));
            }
            i = i + 1;
        }
        proof {
            assert(env_texts(env@).take(i as int) =~= env_texts(env@));
        }
        v
    }
}

/// Names with their values behind an equals sign.
pub open spec fn env_texts(env: Seq<(String, String)>) -> Seq<Seq<char>> {
    Seq::new(env.len(), |i: int| env[i].0@ + "="@ + env[i].1@)
}

/// Whether a step puts up with no failure at all.
pub open spec fn strict(s: StepModel) -> bool {
    !s.invalid_ok && s.blame != Blame::Nobody
}

/// Whether a step takes away a capability that the kernel may not know.
pub open spec fn takes_a_capability(s: StepModel) -> bool {
    s.act matches ActModel::Prctl { option, .. } && (option == abi::PR_CAP_AMBIENT || option == abi::PR_CAPBSET_DROP)
        && s.blame != Blame::Nobody
}

proof fn devices_are_strict(dev: Seq<char>, names: Seq<Seq<char>>, i: int)
    requires
        0 <= i < mounts::devices_steps(dev, names).len(),
    ensures
        strict(mounts::devices_steps(dev, names)[i]),
    decreases names.len(),
{
    let before = mounts::devices_steps(dev, names.drop_last());
    if i < before.len() {
        devices_are_strict(dev, names.drop_last(), i);
    }
}

proof fn rules_are_strict(rules: Seq<compile::LandlockRuleModel>, handled: u64, i: int)
    requires
        0 <= i < landlock::rules_steps(rules, handled).len(),
    ensures
        strict(landlock::rules_steps(rules, handled)[i]),
    decreases rules.len(),
{
    let before = landlock::rules_steps(rules.drop_last(), handled);
    if i < before.len() {
        rules_are_strict(rules.drop_last(), handled, i);
    }
}

proof fn building_is_strict(r: RootfsModel, i: int)
    requires
        0 <= i < build_steps(r).len(),
    ensures
        strict(build_steps(r)[i]),
{
    let dev = paths::joined(r.merged, "dev"@);
    let nodes = mounts::devices_steps(dev, mounts::device_names());
    let front = mounts::private_steps() + seq![rootfs::overlay_step(r)] + mounts::proc_steps(r.merged)
        + mounts::sys_steps(r.merged) + mounts::tmp_steps(r.merged);
    let all = mounts::dev_steps(r.merged);
    if front.len() <= i < front.len() + all.len() {
        let k = i - front.len();
        assert(build_steps(r)[i] == all[k]);
        if 2 <= k < 2 + nodes.len() {
            assert(all[k] == nodes[k - 2]);
            devices_are_strict(dev, mounts::device_names(), k - 2);
        }
    } else if i < front.len() {
        assert(build_steps(r)[i] == front[i]);
    } else {
        let back = seq![
            mounts::plain_step(ActModel::MakeDirs(paths::joined(r.merged, "workspace"@)), "mkdir workspace: "@),
        ] + mounts::pivot_steps(r.merged) + seq![mounts::plain_step(ActModel::CollectExecutables, ""@)];
        assert(build_steps(r) =~= front + all + back);
        assert(build_steps(r)[i] == back[i - front.len() - all.len()]);
    }
}

proof fn restricting_is_strict(p: LaunchPolicyModel, i: int)
    requires
        0 <= i < restrict_steps(p).len(),
    ensures
        strict(restrict_steps(p)[i]) || takes_a_capability(restrict_steps(p)[i]),
{
    let drops = caps::drop_steps();
    let rules = landlock::landlock_steps(p.landlock);
    let middle = landlock::rules_steps(p.landlock.rules, crate::policy::landlock_bits::known(p.landlock.abi));
    if i < drops.len() {
        assert(restrict_steps(p)[i] == drops[i]);
        if 1 <= i < 65 {
            assert(drops[i] == caps::bounding_step((i - 1) as u64));
        }
    } else if i < drops.len() + rules.len() {
        let k = i - drops.len();
        assert(restrict_steps(p)[i] == rules[k]);
        if 1 <= k <= middle.len() {
            assert(rules[k] == middle[k - 1]);
            rules_are_strict(p.landlock.rules, crate::policy::landlock_bits::known(p.landlock.abi), k - 1);
        }
    } else {
        let back = filter_steps(p.seccomp_profile) + caps::unprivileged_steps(
            launcher::SANDBOX_UID,
            launcher::SANDBOX_GID,
        ) + caps::clear_steps();
        assert(restrict_steps(p) =~= drops + rules + back);
        assert(restrict_steps(p)[i] == back[i - drops.len() - rules.len()]);
    }
}

/// The child goes on past a failure only where a capability was to be taken away that the kernel
/// does not know.
pub proof fn only_unknown_capabilities_are_passed_over(
    r: RootfsModel,
    p: LaunchPolicyModel,
    cmd: Seq<char>,
    i: int,
    failure: FailureModel,
)
    requires
        0 <= i < child_steps(r, p, cmd).len(),
        plan::verdict(child_steps(r, p, cmd)[i], failure) is None,
    ensures
        takes_a_capability(child_steps(r, p, cmd)[i]),
        failure matches FailureModel::Refused { errno, .. } && errno == plan::EINVAL,
{
    let head = seq![mounts::plain_step(ActModel::AwaitByte, "sync read: "@)] + caps::root_steps()
        + caps::no_new_privs_steps();
    let built = build_steps(r);
    let restricted = restrict_steps(p);
    let all = child_steps(r, p, cmd);
    assert(all =~= head + built + restricted + release_steps(cmd));
    if i < head.len() {
        assert(all[i] == head[i]);
    } else if i < head.len() + built.len() {
        assert(all[i] == built[i - head.len()]);
        building_is_strict(r, i - head.len());
    } else if i < head.len() + built.len() + restricted.len() {
        assert(all[i] == restricted[i - head.len() - built.len()]);
        restricting_is_strict(p, i - head.len() - built.len());
    } else {
        assert(all[i] == release_steps(cmd)[i - head.len() - built.len() - restricted.len()]);
    }
}

/// The child reports that it is ready only once every step of its confinement was done, and it
/// comes to run the program only once the parent has given its word.
pub proof fn ready_means_confined(
    r: RootfsModel,
    p: LaunchPolicyModel,
    cmd: Seq<char>,
    outcomes: Seq<Option<FailureModel>>,
    j: int,
)
    requires
        plan::progress(child_steps(r, p, cmd), outcomes).1 is None,
    ensures
        child_steps(r, p, cmd)[confinement_steps(r, p).len() as int].act is ReportReady,
        child_steps(r, p, cmd).last().act == ActModel::Execute(cmd),
        plan::progress(child_steps(r, p, cmd), outcomes).0 > confinement_steps(r, p).len() && 0 <= j
            < confinement_steps(r, p).len() ==> j < outcomes.len() && (outcomes[j] is None || takes_a_capability(
            confinement_steps(r, p)[j],
        )),
        plan::progress(child_steps(r, p, cmd), outcomes).0 == child_steps(r, p, cmd).len() ==> outcomes.len()
            > confinement_steps(r, p).len() + 1 && outcomes[(confinement_steps(r, p).len() + 1) as int] is None,
{
    let all = child_steps(r, p, cmd);
    let n = confinement_steps(r, p).len() as int;
    let at = plan::progress(all, outcomes).0;
    assert(all[n] == release_steps(cmd)[0]);
    assert(all[n + 1] == release_steps(cmd)[1]);
    assert(all.last() == release_steps(cmd)[5]);
    if at > n && 0 <= j < n {
        plan::steps_follow_each_other(all, outcomes, j);
        assert(all[j] == confinement_steps(r, p)[j]);
        if let Some(f) = outcomes[j] {
            only_unknown_capabilities_are_passed_over(r, p, cmd, j, f);
        }
    }
    if at == all.len() {
        plan::steps_follow_each_other(all, outcomes, n + 1);
        if let Some(f) = outcomes[n + 1] {
            only_unknown_capabilities_are_passed_over(r, p, cmd, n + 1, f);
        }
    }
}

/// The payload's user id is given up before the capabilities are, which the change needs; and both
/// come after Landlock and the system call filter.
pub proof fn privileges_go_last(p: LaunchPolicyModel)
    ensures
        ({
            let s = restrict_steps(p);
            let n = s.len() as int;
            &&& n >= 4
            &&& s[n - 1].act is ClearCapabilities
            &&& s[n - 2].act == ActModel::SetUsers(launcher::SANDBOX_UID)
            &&& s[n - 3].act == ActModel::SetGroups(launcher::SANDBOX_GID)
            &&& s[n - 4].act is FilterCalls
            &&& s[caps::drop_steps().len() + landlock::landlock_steps(p.landlock).len() - 1].act is RestrictSelf
        }),
{
    let front = caps::drop_steps() + landlock::landlock_steps(p.landlock);
    let back = filter_steps(p.seccomp_profile) + caps::unprivileged_steps(
        launcher::SANDBOX_UID,
        launcher::SANDBOX_GID,
    ) + caps::clear_steps();
    assert(restrict_steps(p) =~= front + back);
    assert(back.len() == 6);
    assert(front.last() == landlock::landlock_steps(p.landlock).last());
}

/// The number that four bytes write, the lowest first.
pub open spec fn le_value(b: Seq<u8>) -> nat {
    (b[0] + 256 * b[1] + 65536 * b[2] + 16777216 * b[3]) as nat
}

/// A message as it is sent: its length, and the message.
pub open spec fn framed(body: Seq<u8>) -> Seq<u8> {
    wire::u32_le(body.len() as u32) + body
}

/// A message as it is sent: its length in four bytes, the lowest first, and the message.
pub fn frame_message(body: &Vec<u8>) -> (r: Vec<u8>)
    ensures
        r@ == framed(body@),
{
    let n: u32 = body.len() as u32;
    let mut out: Vec<u8> = Vec::new();
    out.push((n % 256) as u8);
    out.push((n / 256 % 256) as u8);
    out.push((n / 65536 % 256) as u8);
    out.push((n / 16777216) as u8);
    proof {
        assert(out@ =~= wire::u32_le(n));
    }
    wire::push_all(&mut out, body.as_slice());
    out
}

/// The length of the message behind four bytes; one that is too long is refused unread.
pub fn message_length(header: [u8; 4]) -> (r: Result<usize, Error>)
    ensures
        r is Ok <==> le_value(header@) <= launcher::MAX_MESSAGE,
        r matches Ok(n) ==> n == le_value(header@),
        r matches Err(e) ==> e@ == ErrorModel::LaunchFailed("child message too large"@),
{
    let n: u64 = header[0] as u64 + 256 * header[1] as u64 + 65536 * header[2] as u64 + 16777216 * header[3] as u64;
    if n > launcher::MAX_MESSAGE as u64 {
        Err(Error::LaunchFailed("child message too large".to_owned()))
    } else {
        Ok(n as usize)
    }
}

/// A message that is not too long arrives as it was sent.
pub proof fn messages_arrive(body: Seq<u8>)
    requires
        body.len() <= launcher::MAX_MESSAGE,
    ensures
        framed(body).len() == body.len() + 4,
        le_value(framed(body).take(4)) == body.len(),
        framed(body).skip(4) == body,
{
    let n = body.len() as u32;
    assert(framed(body).take(4) =~= wire::u32_le(n));
    assert(framed(body).skip(4) =~= body);
}

/// Where a message was lost.
#[derive(Debug, Clone, Copy, PartialEq, Eq, Structural)]
pub enum ReceiveStage {
    Length,
    Body,
    Parse,
}

/// The error for a message that did not arrive.
pub fn receive_refused(stage: ReceiveStage, m: &str) -> (r: Error)
    ensures
        r@ == ErrorModel::LaunchFailed(
            match stage {
                ReceiveStage::Length => "child recv (len): "@,
                ReceiveStage::Body => "child recv (body): "@,
                ReceiveStage::Parse => "child msg parse: "@,
            } + m@,
        ),
{
    let mut t = match stage {
        ReceiveStage::Length => "child recv (len): ".to_owned(),
        ReceiveStage::Body => "child recv (body): ".to_owned(),
        ReceiveStage::Parse => "child msg parse: ".to_owned(),
    };
    t.append(m);
    Error::LaunchFailed(t)
}

/// What watches over a payload.
#[derive(Debug)]
pub struct Supervisor {
    pub pid: i32,
}

/// What is known of a payload's end.
#[derive(Debug)]
pub enum WaitEvent {
    /// Waiting was refused.
    Refused { errno: i32, message: String },
    /// The payload ended.
    Ended { si_code: i32, si_status: i32 },
    /// What the child has left on the socket, after it ended with this code.
    Late { code: i32, left: Option<ChildMsg> },
}

/// What to do about it.
#[derive(Debug)]
pub enum WaitStep {
    /// Wait again.
    Again,
    /// Look what the child has left on the socket.
    AskChild(i32),
    Done(Result<i32, Error>),
}

/// The exit code for how a child ended: its own, or 128 more than the signal that killed it.
pub open spec fn exit_code(si_code: i32, si_status: i32) -> int {
    if si_code == launcher::CLD_KILLED || si_code == launcher::CLD_DUMPED {
        128 + si_status
    } else {
        si_status as int
    }
}

impl Supervisor {
    /// The payload's exit code. A child that ended as one that never came to run its program, and
    /// left the reason, is a failed launch.
    pub fn wait(&self, event: WaitEvent) -> (r: WaitStep)
        requires
            event matches WaitEvent::Ended { si_code, si_status } ==> exit_code(si_code, si_status) <= i32::MAX,
        ensures
            match event {
                WaitEvent::Refused { errno, message } => if errno == launcher::EINTR {
                    r is Again
                } else {
                    r matches WaitStep::Done(Err(e)) && e@ == ErrorModel::LaunchFailed("waitid: "@ + message@)
                },
                WaitEvent::Ended { si_code, si_status } => {
                    let code = exit_code(si_code, si_status);
                    if code == launcher::CHILD_SETUP_FAILED_EXIT {
                        r matches WaitStep::AskChild(c) && c == code
                    } else {
                        r matches WaitStep::Done(Ok(c)) && c == code
                    }
                },
                WaitEvent::Late { code, left } => match left {
                    Some(ChildMsg::Error(m)) => r matches WaitStep::Done(Err(e)) && e@ == ErrorModel::LaunchFailed(
                        m@,
                    ),
                    _ => r matches WaitStep::Done(Ok(c)) && c == code,
                },
            },
    {
        match event {
            WaitEvent::Refused { errno, message } => {
                if errno == launcher::EINTR {
                    WaitStep::Again
                } else {
                    let mut t = "waitid: ".to_owned();
                    t.append(message.as_str());
                    WaitStep::Done(Err(Error::LaunchFailed(t)))
                }
            },
            WaitEvent::Ended { si_code, si_status } => {
                let code: i32 = if si_code == launcher::CLD_KILLED || si_code == launcher::CLD_DUMPED {
                    128 + si_status
                } else {
                    si_status
                };
                if code == launcher::CHILD_SETUP_FAILED_EXIT {
                    WaitStep::AskChild(code)
                } else {
                    WaitStep::Done(Ok(code))
                }
            },
            WaitEvent::Late { code, left } => match left {
                Some(ChildMsg::Error(m)) => WaitStep::Done(Err(Error::LaunchFailed(m))),
                _ => WaitStep::Done(Ok(code)),
            },
        }
    }

    /// The error for a signal that was refused.
    pub fn signal_refused(m: &str) -> (r: Error)
        ensures
            r@ == ErrorModel::LaunchFailed("pidfd_send_signal: "@ + m@),
    {
        let mut t = "pidfd_send_signal: ".to_owned();
        t.append(m);
        Error::LaunchFailed(t)
    }
}

} // verus!
