//! Giving up privileges.
use vstd::prelude::*;

use crate::number;
use crate::policy::compile;
use crate::runtime::abi;
use crate::runtime::abi::CapUserData;
use crate::runtime::plan;
use crate::runtime::plan::Act;
use crate::runtime::plan::ActModel;
use crate::runtime::plan::Blame;
use crate::runtime::plan::Step;
use crate::runtime::plan::StepModel;
use crate::text;

verus! {

/// A step that a failed launch is blamed on.
pub open spec fn launch_step(act: ActModel, lead: Seq<char>) -> StepModel {
    StepModel { act, blame: Blame::Launch, lead, invalid_ok: false }
}

/// Empties the ambient set. A kernel without one refuses with `EINVAL`.
pub open spec fn ambient_step() -> StepModel {
    StepModel {
        act: ActModel::Prctl { option: abi::PR_CAP_AMBIENT, arg: 4 },
        blame: Blame::Launch,
        lead: "PR_CAP_AMBIENT_CLEAR_ALL: "@,
        invalid_ok: true,
    }
}

/// Drops one capability from the bounding set. A kernel that does not know it refuses with
/// `EINVAL`.
pub open spec fn bounding_step(cap: u64) -> StepModel {
    StepModel {
        act: ActModel::Prctl { option: abi::PR_CAPBSET_DROP, arg: cap },
        blame: Blame::Launch,
        lead: "PR_CAPBSET_DROP("@ + number::decimal(cap as nat) + "): "@,
        invalid_ok: true,
    }
}

/// Drops every capability from the bounding set.
pub open spec fn bounding_steps() -> Seq<StepModel> {
    Seq::new(64, |i: int| bounding_step(i as u64))
}

/// Empties the ambient, the bounding and the inheritable set.
pub open spec fn drop_steps() -> Seq<StepModel> {
    seq![ambient_step()] + bounding_steps() + seq![
        launch_step(ActModel::ReadCapabilities, "capget: "@),
        launch_step(ActModel::ClearInheritable, "capset (clear inheritable): "@),
    ]
}

/// Becomes user and group 0 of the new namespace.
pub open spec fn root_steps() -> Seq<StepModel> {
    seq![
        launch_step(ActModel::SetGroups(0), "setresgid(0,0,0): "@),
        launch_step(ActModel::SetUsers(0), "setresuid(0,0,0): "@),
    ]
}

/// Gives up gaining privileges.
pub open spec fn no_new_privs_steps() -> Seq<StepModel> {
    seq![launch_step(ActModel::Prctl { option: abi::PR_SET_NO_NEW_PRIVS, arg: 1 }, "PR_SET_NO_NEW_PRIVS: "@)]
}

/// Becomes an unprivileged user and group: the group first, while that is still allowed.
pub open spec fn unprivileged_steps(uid: u32, gid: u32) -> Seq<StepModel> {
    seq![
        launch_step(ActModel::SetGroups(gid), "setresgid: "@),
        launch_step(ActModel::SetUsers(uid), "setresuid: "@),
    ]
}

/// Empties the capability sets.
pub open spec fn clear_steps() -> Seq<StepModel> {
    seq![launch_step(ActModel::ClearCapabilities, "capset: "@)]
}

fn one(act: Act, lead: &str) -> (r: Vec<Step>)
    ensures
        compile::views(r@) == seq![launch_step(act@, lead@)],
{
    let mut v: Vec<Step> = Vec::new();
    v.push(Step::new(act, Blame::Launch, lead));
    proof {
        assert(compile::views(v@) =~= seq![launch_step(act@, lead@)]);
    }
    v
}

fn two(a: Act, a_lead: &str, b: Act, b_lead: &str) -> (r: Vec<Step>)
    ensures
        compile::views(r@) == seq![launch_step(a@, a_lead@), launch_step(b@, b_lead@)],
{
    let mut v: Vec<Step> = Vec::new();
    v.push(Step::new(a, Blame::Launch, a_lead));
    v.push(Step::new(b, Blame::Launch, b_lead));
    proof {
        assert(compile::views(v@) =~= seq![launch_step(a@, a_lead@), launch_step(b@, b_lead@)]);
    }
    v
}

/// How to empty the ambient, the bounding and the inheritable set. The effective and the permitted
/// set stay, since changing the user id still needs them.
pub fn drop_bounding_set_and_ambient() -> (r: Vec<Step>)
    ensures
        compile::views(r@) == drop_steps(),
{
    let mut v: Vec<Step> = Vec::new();
    let ambient = Step {
        act: Act::Prctl { option: abi::PR_CAP_AMBIENT, arg: abi::PR_CAP_AMBIENT_CLEAR_ALL as u64 },
        blame: Blame::Launch,
        lead: "PR_CAP_AMBIENT_CLEAR_ALL: ".to_owned(),
        invalid_ok: true,
    };
    v.push(ambient);
    let ghost all = drop_steps();
    proof {
        assert(compile::views(v@) =~= all.take(1));
    }
    let mut cap: u64 = 0;
    while cap <= abi::CAP_PROBE_CEILING as u64
        invariant
            cap <= 64,
            all == drop_steps(),
            compile::views(v@) == all.take(1 + cap),
        decreases 64 - cap,
    {
        let ghost done = compile::views(v@);
        let step = Step {
            act: Act::Prctl { option: abi::PR_CAPBSET_DROP, arg: cap },
            blame: Blame::Launch,
            lead: text::cat3("PR_CAPBSET_DROP(", number::format_u64(cap).as_str(), "): "),
            invalid_ok: true,
        };
        proof {
            assert(all[1 + cap] == bounding_step(cap));
            assert(step@ == bounding_step(cap));
        }
        v.push(step);
        proof {
            assert(compile::views(v@) =~= done.push(bounding_step(cap)));
            assert(all.take(2 + cap) =~= all.take(1 + cap).push(all[1 + cap]));
        }
        cap = cap + 1;
    }
    let mut rest = two(Act::ReadCapabilities, "capget: ", Act::ClearInheritable, "capset (clear inheritable): ");
    let ghost done = compile::views(v@);
    let ghost more = compile::views(rest@);
    v.append(&mut rest);
    proof {
        assert(compile::views(v@) =~= done + more);
        assert(done + more =~= all);
    }
    v
}

/// How to empty the effective, the permitted and the inheritable set.
pub fn finish_dropping_capabilities() -> (r: Vec<Step>)
    ensures
        compile::views(r@) == clear_steps(),
{
    one(Act::ClearCapabilities, "capset: ")
}

/// How to become user and group 0 of the new namespace.
pub fn become_namespace_root() -> (r: Vec<Step>)
    ensures
        compile::views(r@) == root_steps(),
{
    two(Act::SetGroups(0), "setresgid(0,0,0): ", Act::SetUsers(0), "setresuid(0,0,0): ")
}

/// How to give up gaining privileges.
pub fn set_no_new_privs() -> (r: Vec<Step>)
    ensures
        compile::views(r@) == no_new_privs_steps(),
{
    one(Act::Prctl { option: abi::PR_SET_NO_NEW_PRIVS, arg: 1 }, "PR_SET_NO_NEW_PRIVS: ")
}

/// How to become an unprivileged user and group.
pub fn drop_to_unprivileged(uid: u32, gid: u32) -> (r: Vec<Step>)
    ensures
        compile::views(r@) == unprivileged_steps(uid, gid),
{
    two(Act::SetGroups(gid), "setresgid: ", Act::SetUsers(uid), "setresuid: ")
}

/// The capability sets with the inheritable ones taken out, and the others as they are.
pub fn clear_inheritable(data: [CapUserData; 2]) -> (r: [CapUserData; 2])
    ensures
        forall|i: int|
            0 <= i < 2 ==> #[trigger] r@[i] == (CapUserData {
                effective: data@[i].effective,
                permitted: data@[i].permitted,
                inheritable: 0,
            }),
{
    [
        CapUserData { effective: data[0].effective, permitted: data[0].permitted, inheritable: 0 },
        CapUserData { effective: data[1].effective, permitted: data[1].permitted, inheritable: 0 },
    ]
}

/// Empty capability sets.
pub fn no_capabilities() -> (r: [CapUserData; 2])
    ensures
        forall|i: int|
            0 <= i < 2 ==> #[trigger] r@[i] == (CapUserData { effective: 0, permitted: 0, inheritable: 0 }),
{
    [CapUserData::default(), CapUserData::default()]
}

/// Every capability number up to the ceiling is dropped from the bounding set; a refusal other
/// than `EINVAL` ends the launch.
pub proof fn no_capability_stays_in_reach(cap: u64, errno: i32, message: Seq<char>)
    requires
        cap <= 63,
    ensures
        drop_steps().contains(bounding_step(cap)),
        errno != plan::EINVAL ==> plan::verdict(
            bounding_step(cap),
            plan::FailureModel::Refused { errno, message },
        ) is Some,
{
    assert(drop_steps()[1 + cap as int] == bounding_step(cap));
}

} // verus!
