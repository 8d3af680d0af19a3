//! The sandboxes of a host: making them, running payloads in them, and taking them down.
use vstd::hash_map::StringHashMap;
use vstd::prelude::*;

use crate::bpf::loader;
use crate::bpf::maps;
use crate::bpf::maps::BpfManager;
use crate::bpf::maps::MapDelete;
use crate::error::Error;
use crate::error::ErrorModel;
use crate::id::CgroupId;
use crate::id::SandboxId;
use crate::number;
use crate::paths;
use crate::policy::compile;
use crate::policy::compile::BpfPlan;
use crate::policy::compile::ExecRule;
use crate::policy::compile::ExecRuleModel;
use crate::policy::compile::LandlockPlanModel;
use crate::policy::compile::LandlockRule;
use crate::policy::compile::LandlockRuleModel;
use crate::policy::compile::Policy;
use crate::policy::compile::PolicyModel;
use crate::policy::landlock_bits;
use crate::runtime::cgroup;
use crate::runtime::cgroup::Cgroup;
use crate::runtime::cgroup::CgroupModel;
use crate::runtime::child;
use crate::runtime::child::Supervisor;
use crate::runtime::defaults;
use crate::runtime::landlock;
use crate::runtime::launcher::LaunchPolicy;
use crate::runtime::launcher::LaunchPolicyModel;
use crate::runtime::launcher::Launcher;
use crate::runtime::mounts;
use crate::runtime::plan;
use crate::runtime::plan::Act;
use crate::runtime::plan::ActModel;
use crate::runtime::plan::Blame;
use crate::runtime::plan::FailureModel;
use crate::runtime::plan::Step;
use crate::runtime::plan::StepModel;
use crate::runtime::probe;
use crate::runtime::probe::KernelCaps;
use crate::runtime::rootfs;
use crate::runtime::rootfs::Rootfs;
use crate::runtime::rootfs::RootfsModel;
use crate::sandbox;
use crate::sandbox::SandboxSpec;
use crate::state::SandboxState;
use crate::text;

verus! {

/// Where the cgroups of the host are.
pub const CGROUP_ROOT: &'static str = "/sys/fs/cgroup";

/// Where the templates of the sandboxes are.
pub const TEMPLATES_DIR: &'static str = "/var/lib/aivisor/templates";

/// How old an empty cgroup is at least before it counts as left behind, in seconds.
pub const ORPHAN_GRACE_SECS: u64 = 30;

/// A sandbox on the record.
#[derive(Debug)]
pub struct SandboxHandle {
    pub id: SandboxId,
    pub state: SandboxState,
    /// What was asked for.
    pub asked: SandboxSpec,
    pub cgroup: Option<Cgroup>,
    pub supervisor: Option<Supervisor>,
    pub rootfs: Option<Rootfs>,
}

#[verifier::ext_equal]
pub struct HandleModel {
    pub key: Seq<u8>,
    pub state: SandboxState,
    /// What was asked for, as it was given.
    pub asked: SandboxSpec,
    pub template: Seq<char>,
    pub policy: Option<Seq<char>>,
    pub env: Seq<(Seq<char>, Seq<char>)>,
    pub cgroup: Option<CgroupModel>,
    pub supervised: bool,
    pub rootfs: Option<RootfsModel>,
}

impl View for SandboxHandle {
    type V = HandleModel;

    open spec fn view(&self) -> HandleModel {
        HandleModel {
            key: self.id.key(),
            state: self.state,
            asked: self.asked,
            template: self.asked.template@,
            policy: match self.asked.policy {
                Some(p) => Some(p.name@),
                None => None,
            },
            env: loader::pair_texts(self.asked.env@),
            cgroup: compile::opt_view(self.cgroup),
            supervised: self.supervisor is Some,
            rootfs: compile::opt_view(self.rootfs),
        }
    }
}

/// A sandbox as it is listed.
#[derive(Debug)]
pub struct SandboxSummary {
    pub id: SandboxId,
    pub state: SandboxState,
    pub template: String,
}

#[verifier::ext_equal]
pub struct SummaryModel {
    pub key: Seq<u8>,
    pub state: SandboxState,
    pub template: Seq<char>,
}

impl View for SandboxSummary {
    type V = SummaryModel;

    open spec fn view(&self) -> SummaryModel {
        SummaryModel { key: self.id.key(), state: self.state, template: self.template@ }
    }
}

/// The sandboxes of a host, and the policies they can refer to.
pub struct SandboxManager {
    pub registry: Vec<SandboxHandle>,
    pub policies: StringHashMap<Policy>,
    pub launcher: Launcher,
    pub landlock_abi: u32,
}

/// Where a sandbox is to be made.
#[derive(Debug)]
pub struct Creation {
    pub cgroup_path: String,
    /// Makes the cgroup; the last step gives its number.
    pub cgroup_steps: Vec<Step>,
    pub rootfs: Rootfs,
    /// Makes the directories of the root file system.
    pub rootfs_steps: Vec<Step>,
}

/// All that a launch needs.
#[derive(Debug)]
pub struct ExecLaunch {
    pub env: Vec<(String, String)>,
    pub cgroup_path: String,
    pub cgid: CgroupId,
    pub rootfs: Rootfs,
    pub policy: LaunchPolicy,
    pub bpf_plan: BpfPlan,
}

/// Where a sandbox stands in the registry.
pub open spec fn found(hs: Seq<HandleModel>, key: Seq<u8>) -> Option<int>
    decreases hs.len(),
{
    if hs.len() == 0 {
        None
    } else {
        match found(hs.drop_last(), key) {
            Some(i) => Some(i),
            None => if hs.last().key == key {
                Some(hs.len() - 1)
            } else {
                None
            },
        }
    }
}

/// Whether no sandbox is on the record twice.
pub open spec fn one_each(hs: Seq<HandleModel>) -> bool {
    forall|i: int, j: int| 0 <= i < j < hs.len() ==> (#[trigger] hs[i]).key != (#[trigger] hs[j]).key
}

/// The record with one sandbox in another state.
pub open spec fn with_state(hs: Seq<HandleModel>, i: int, state: SandboxState) -> Seq<HandleModel> {
    hs.update(i, HandleModel { state, ..hs[i] })
}

proof fn found_none(hs: Seq<HandleModel>, key: Seq<u8>)
    requires
        forall|i: int| 0 <= i < hs.len() ==> (#[trigger] hs[i]).key != key,
    ensures
        found(hs, key) is None,
    decreases hs.len(),
{
    if hs.len() > 0 {
        assert forall|i: int| 0 <= i < hs.drop_last().len() implies (#[trigger] hs.drop_last()[i]).key != key by {
            assert(hs.drop_last()[i] == hs[i]);
        }
        found_none(hs.drop_last(), key);
        assert(hs.last() == hs[hs.len() - 1]);
    }
}

proof fn found_first(hs: Seq<HandleModel>, key: Seq<u8>, k: int)
    requires
        0 <= k < hs.len(),
        hs[k].key == key,
        forall|i: int| 0 <= i < k ==> (#[trigger] hs[i]).key != key,
    ensures
        found(hs, key) == Some(k),
    decreases hs.len(),
{
    if k < hs.len() - 1 {
        found_first(hs.drop_last(), key, k);
    } else {
        found_none(hs.drop_last(), key);
    }
}

/// What is found bears the wanted identifier, and where nothing is found nothing bears it.
pub proof fn found_is_there(hs: Seq<HandleModel>, key: Seq<u8>)
    ensures
        match found(hs, key) {
            Some(i) => 0 <= i < hs.len() && hs[i].key == key && forall|j: int|
                0 <= j < i ==> (#[trigger] hs[j]).key != key,
            None => forall|j: int| 0 <= j < hs.len() ==> (#[trigger] hs[j]).key != key,
        },
    decreases hs.len(),
{
    if hs.len() > 0 {
        found_is_there(hs.drop_last(), key);
        assert forall|j: int| 0 <= j < hs.drop_last().len() implies #[trigger] hs[j] == hs.drop_last()[j] by {}
    }
}

/// Whether a directory among the cgroups was left behind by an earlier run: it bears the name of a
/// sandbox, it is not so young that another launch may be about to use it, and nothing runs in it.
pub open spec fn left_behind(name: Seq<char>, is_dir: bool, age_secs: Option<u64>, procs: Seq<char>) -> bool {
    &&& is_dir
    &&& vstd::utf8::encode_utf8(name).len() == 36
    &&& name.contains('-')
    &&& age_secs is Some
    &&& age_secs->0 >= ORPHAN_GRACE_SECS
    &&& text::trimmed(procs).len() == 0
}

/// The executables that a policy lists by path.
pub open spec fn listed_paths(allow: Seq<ExecRuleModel>) -> Seq<Seq<char>>
    decreases allow.len(),
{
    if allow.len() == 0 {
        Seq::empty()
    } else {
        let before = listed_paths(allow.drop_last());
        match allow.last() {
            ExecRuleModel::Path { path, pin: _ } => before.push(path),
            ExecRuleModel::Prefix(_) => before,
        }
    }
}

/// The directories whose executables a policy lists.
pub open spec fn listed_prefixes(allow: Seq<ExecRuleModel>) -> Seq<Seq<char>>
    decreases allow.len(),
{
    if allow.len() == 0 {
        Seq::empty()
    } else {
        let before = listed_prefixes(allow.drop_last());
        match allow.last() {
            ExecRuleModel::Path { path: _, pin: _ } => before,
            ExecRuleModel::Prefix(p) => before.push(p),
        }
    }
}

/// What lets one program be read and executed, and nothing else.
pub open spec fn command_rule(cmd: Seq<char>, abi: u32) -> LandlockRuleModel {
    LandlockRuleModel {
        path: cmd,
        access_mask: (landlock_bits::EXECUTE | landlock_bits::READ_FILE) & landlock_bits::known(abi),
    }
}

/// The confinement of a launch. Where the policy says nothing of programs, the one that is
/// launched is the only one allowed.
pub open spec fn launch_policy(p: PolicyModel, abi: u32, cmd: Seq<char>) -> LaunchPolicyModel {
    let base = compile::landlock_plan(p, abi);
    let profile = match p.runtime {
        Some(o) => match o.seccomp_profile {
            Some(s) => s,
            None => "aivisor-default"@,
        },
        None => "aivisor-default"@,
    };
    match p.exec_policy {
        None => LaunchPolicyModel {
            landlock: LandlockPlanModel { rules: base.rules.push(command_rule(cmd, abi)), abi },
            seccomp_profile: profile,
            exec_paths: seq![cmd],
            exec_prefixes: Seq::empty(),
        },
        Some(e) => LaunchPolicyModel {
            landlock: base,
            seccomp_profile: profile,
            exec_paths: listed_paths(e.allow),
            exec_prefixes: listed_prefixes(e.allow),
        },
    }
}

/// The policy of a sandbox: the default one where it names none. A name that is not registered is
/// refused, and no other policy takes its place.
pub open spec fn policy_of(h: HandleModel, policies: Map<Seq<char>, Policy>) -> Result<PolicyModel, ErrorModel> {
    match h.policy {
        None => Ok(defaults::default_model()),
        Some(name) => if policies.contains_key(name) {
            Ok(policies[name]@)
        } else {
            Err(
                ErrorModel::PolicyInvalid(
                    "sandbox references policy "@ + text::quoted(name) + ", which is not registered"@,
                ),
            )
        },
    }
}

/// The error for a sandbox that is not on the record.
pub open spec fn not_found() -> ErrorModel {
    ErrorModel::LaunchFailed("sandbox not found"@)
}

/// Why a launch is refused outright; nothing where it is taken up.
pub open spec fn exec_refusal(
    hs: Seq<HandleModel>,
    policies: Map<Seq<char>, Policy>,
    id: SandboxId,
    cmd: Seq<char>,
) -> Option<ErrorModel> {
    if !(cmd.len() > 0 && cmd[0] == '/') {
        Some(
            ErrorModel::LaunchFailed(
                "cmd must be an absolute path inside the sandbox, got "@ + text::quoted(cmd)
                    + " — aivisor does not perform PATH lookup"@,
            ),
        )
    } else {
        match found(hs, id.key()) {
            None => Some(not_found()),
            Some(i) => match policy_of(hs[i], policies) {
                Err(e) => Some(e),
                Ok(_) => if hs[i].state == SandboxState::Running {
                    Some(
                        ErrorModel::LaunchFailed(
                            "sandbox "@ + id.shown()
                                + " is already running a command; aivisor runs one payload per sandbox at a time"@,
                        ),
                    )
                } else {
                    None
                },
            },
        }
    }
}

/// Why a launch that was taken up cannot go on; nothing where it can.
pub open spec fn parts_missing(h: HandleModel) -> Option<ErrorModel> {
    if h.cgroup is None {
        Some(ErrorModel::LaunchFailed("no cgroup"@))
    } else if h.rootfs is None {
        Some(ErrorModel::LaunchFailed("no rootfs"@))
    } else {
        None
    }
}

/// Removes the BPF context of a cgroup.
pub open spec fn deregister_step(cgid: CgroupId) -> StepModel {
    StepModel {
        act: ActModel::Deregister(cgid.0),
        blame: Blame::Launch,
        lead: "delete cgroup "@ + number::decimal(cgid.0 as nat) + " from BPF sandboxes map: "@,
        invalid_ok: false,
    }
}

/// A step that is done where it can be done.
pub open spec fn best_effort(act: ActModel) -> StepModel {
    StepModel { act, blame: Blame::Nobody, lead: ""@, invalid_ok: false }
}

/// Kills the payload.
pub open spec fn kill_steps(h: HandleModel) -> Seq<StepModel> {
    if h.supervised {
        seq![best_effort(ActModel::KillPayload)]
    } else {
        Seq::empty()
    }
}

/// Removes the cgroup.
pub open spec fn cgroup_steps(h: HandleModel) -> Seq<StepModel> {
    match h.cgroup {
        Some(c) => cgroup::destroy_steps(c.path),
        None => Seq::empty(),
    }
}

/// Removes the directories of the root file system: the one that holds the writable layer, and
/// all beneath it.
pub open spec fn tree_steps(h: HandleModel) -> Seq<StepModel> {
    match h.rootfs {
        Some(r) => match text::rsplit_once_at(r.upper, '/') {
            Some((above, _)) => seq![best_effort(ActModel::RemoveTree(above))],
            None => Seq::empty(),
        },
        None => Seq::empty(),
    }
}

/// Takes the BPF context away.
pub open spec fn context_steps(h: HandleModel) -> Seq<StepModel> {
    match h.cgroup {
        Some(c) => seq![deregister_step(c.id)],
        None => Seq::empty(),
    }
}

/// Takes a sandbox down.
pub open spec fn teardown_steps(h: HandleModel) -> Seq<StepModel> {
    kill_steps(h) + cgroup_steps(h) + seq![best_effort(ActModel::DetachHooks)] + tree_steps(h) + context_steps(h)
}

fn clone_env(env: &Vec<(String, String)>) -> (r: Vec<(String, String)>)
    ensures
        loader::pair_texts(r@) == loader::pair_texts(env@),
{
    let mut v: Vec<(String, String)> = Vec::new();
    let ghost all = loader::pair_texts(env@);
    let mut i: usize = 0;
    while i < env.len()
        invariant
            i <= env@.len(),
            all == loader::pair_texts(env@),
            loader::pair_texts(v@) == all.take(i as int),
        decreases env@.len() - i,
    {
        let ghost done = loader::pair_texts(v@);
        v.push((env[i].0.clone(), env[i].1.clone()));
        proof {
            assert(loader::pair_texts(v@) =~= done.push(all[i as int]));
            assert(all.take(i + 1) =~= all.take(i as int).push(all[i as int]));
        }
        i = i + 1;
    }
    proof {
        assert(all.take(i as int) =~= all);
    }
    v
}

/// The executables and directories that a policy lists.
fn listed(allow: &Vec<ExecRule>) -> (r: (Vec<String>, Vec<String>))
    ensures
        text::texts(r.0@) == listed_paths(compile::views(allow@)),
        text::texts(r.1@) == listed_prefixes(compile::views(allow@)),
{
    let mut files: Vec<String> = Vec::new();
    let mut dirs: Vec<String> = Vec::new();
    let ghost all = compile::views(allow@);
    let mut i: usize = 0;
    proof {
        assert(text::texts(files@) =~= listed_paths(all.take(0)));
        assert(text::texts(dirs@) =~= listed_prefixes(all.take(0)));
    }
    while i < allow.len()
        invariant
            i <= allow@.len(),
            all == compile::views(allow@),
            text::texts(files@) == listed_paths(all.take(i as int)),
            text::texts(dirs@) == listed_prefixes(all.take(i as int)),
        decreases allow@.len() - i,
    {
        let ghost f = text::texts(files@);
        let ghost d = text::texts(dirs@);
        proof {
            assert(all.take(i + 1).drop_last() =~= all.take(i as int));
            assert(all.take(i + 1).last() == allow@[i as int]@);
        }
        match &allow[i] {
            ExecRule::Path { path, pin: _ } => {
                files.push(path.clone());
                proof {
                    assert(text::texts(files@) =~= f.push(path@));
                }
            },
            ExecRule::Prefix(p) => {
                dirs.push(p.clone());
                proof {
                    assert(text::texts(dirs@) =~= d.push(p@));
                }
            },
        }
        i = i + 1;
    }
    proof {
        assert(all.take(i as int) =~= all);
    }
    (files, dirs)
}

impl SandboxManager {
    /// The record.
    pub open spec fn handles(&self) -> Seq<HandleModel> {
        compile::views(self.registry@)
    }

    /// Whether no sandbox is on the record twice, and each was asked for in a valid way.
    pub open spec fn wf(&self) -> bool {
        &&& one_each(self.handles())
        &&& forall|i: int| 0 <= i < self.handles().len() ==> (#[trigger] self.handles()[i]).asked.wf()
    }

    /// Whether nothing but the record differs.
    pub open spec fn same_but_registry(&self, other: &SandboxManager) -> bool {
        &&& self.policies@ == other.policies@
        &&& self.launcher == other.launcher
        &&& self.landlock_abi == other.landlock_abi
    }

    /// Whether the kernel can run sandboxes: the Landlock ABI to use.
    pub fn check_kernel(caps: &KernelCaps, landlock_answer: i64) -> (r: Result<u32, Error>)
        ensures
            probe::missing(*caps) is Some ==> (r matches Err(e) && e@ == (ErrorModel::KernelFeatureMissing {
                feature: "hardware requirements"@,
                min_kernel: "6.1"@,
            })),
            probe::missing(*caps) is None ==> {
                &&& r is Ok <==> landlock_answer >= 0 && landlock_answer as u32 >= 1
                &&& r matches Ok(abi) ==> abi == landlock_answer as u32
                &&& landlock_answer < 0 ==> (r matches Err(e) && e@ == (ErrorModel::KernelFeatureMissing {
                    feature: "Landlock LSM"@,
                    min_kernel: "5.13"@,
                }))
                &&& landlock_answer >= 0 && (landlock_answer as u32) < 1 ==> (r matches Err(e) && e@ == (
                ErrorModel::KernelFeatureMissing {
                    feature: "Landlock ABI (see min_abi in error context)"@,
                    min_kernel: "5.13+"@,
                }))
            },
    {
        if probe::check_hard_requirements(caps).is_err() {
            return Err(Error::KernelFeatureMissing { feature: "hardware requirements", min_kernel: "6.1" });
        }
        landlock::probe_landlock_abi(1, landlock_answer)
    }

    /// A record of no sandboxes and no policies, on a kernel that enforces.
    pub fn new(caps: KernelCaps, landlock_abi: u32, enforcement: Result<(), Error>) -> (r: Result<Self, Error>)
        ensures
            match enforcement {
                Err(e) => r matches Err(f) && f == e,
                Ok(_) => r matches Ok(m) && m.wf() && m.registry@.len() == 0 && m.policies@ == Map::<
                    Seq<char>,
                    Policy,
                >::empty() && m.landlock_abi == landlock_abi && m.launcher.caps == caps,
            },
    {
        match enforcement {
            Err(e) => Err(e),
            Ok(_) => Ok(
                SandboxManager {
                    registry: Vec::new(),
                    policies: StringHashMap::new(),
                    launcher: Launcher::new(caps),
                    landlock_abi,
                },
            ),
        }
    }

    /// Puts a policy on the record under a name, in place of one that was there.
    pub fn register_policy(&mut self, name: String, policy: Policy)
        ensures
            final(self).policies@ == old(self).policies@.insert(name@, policy),
            final(self).registry == old(self).registry,
            final(self).launcher == old(self).launcher,
            final(self).landlock_abi == old(self).landlock_abi,
    {
        self.policies.insert(name, policy);
    }

    /// Whether a directory among the cgroups was left behind by an earlier run.
    pub fn is_orphan(name: &str, is_dir: bool, age_secs: Option<u64>, procs: &str) -> (r: bool)
        ensures
            r == left_behind(name@, is_dir, age_secs, procs@),
    {
        if !is_dir {
            return false;
        }
        if name.as_bytes().len() != 36 || text::split_once(name, '-').is_none() {
            return false;
        }
        match age_secs {
            None => false,
            Some(age) => {
                if age < ORPHAN_GRACE_SECS {
                    return false;
                }
                let left = text::trim(procs);
                text::chars_of(left.as_str()).len() == 0
            },
        }
    }

    fn find(&self, id: &SandboxId) -> (r: Option<usize>)
        ensures
            (match r {
                Some(i) => Some(i as int),
                None => None,
            }) == found(self.handles(), id.key()),
            r matches Some(i) ==> i < self.registry@.len() && self.handles()[i as int].key == id.key(),
    {
        let ghost hs = self.handles();
        let mut i: usize = 0;
        while i < self.registry.len()
            invariant
                i <= self.registry@.len(),
                hs == self.handles(),
                forall|k: int| 0 <= k < i ==> (#[trigger] hs[k]).key != id.key(),
            decreases self.registry@.len() - i,
        {
            proof {
                assert(hs[i as int] == self.registry@[i as int]@);
            }
            if self.registry[i].id.is(id) {
                proof {
                    found_first(hs, id.key(), i as int);
                }
                return Some(i);
            }
            i = i + 1;
        }
        proof {
            found_none(hs, id.key());
        }
        None
    }

    fn set_state(&mut self, i: usize, state: SandboxState)
        requires
            i < old(self).registry@.len(),
        ensures
            final(self).handles() == with_state(old(self).handles(), i as int, state),
            final(self).registry@.len() == old(self).registry@.len(),
            final(self).same_but_registry(old(self)),
            old(self).wf() ==> final(self).wf(),
    {
        let ghost before = self.handles();
        self.registry[i].state = state;
        proof {
            assert(self.handles() =~= with_state(before, i as int, state));
        }
    }

    /// Where a sandbox is to be made. Its cgroup gets its limits and is registered for enforcement
    /// before the rest is made.
    pub fn create(&self, asked: &SandboxSpec) -> (r: Creation)
        ensures
            r.cgroup_path@ == cgroup::path_for(CGROUP_ROOT@, asked.id.shown()),
            compile::views(r.cgroup_steps@) == cgroup::create_steps(CGROUP_ROOT@, asked.id.shown()),
            r.rootfs@ == rootfs::layers(paths::joined(TEMPLATES_DIR@, asked.template@), asked.id.shown()),
            compile::views(r.rootfs_steps@) == rootfs::prepare_steps(asked.id.shown()),
    {
        let (cgroup_path, cgroup_steps) = Cgroup::create(CGROUP_ROOT, &asked.id);
        let template = paths::join(TEMPLATES_DIR, asked.template.as_str());
        let (rootfs, rootfs_steps) = Rootfs::prepare(
            template.as_str(),
            &asked.workspace,
            asked.id.to_string().as_str(),
        );
        Creation { cgroup_path, cgroup_steps, rootfs, rootfs_steps }
    }

    /// Puts a sandbox on the record, once its cgroup is registered and the rest was made or was
    /// not. Where it was not, the registration is undone: the deletes are what is left to do.
    pub fn finish_create(
        &mut self,
        bpf: &mut BpfManager,
        asked: SandboxSpec,
        cgroup: Cgroup,
        made: Result<Rootfs, Error>,
    ) -> (r: Result<SandboxId, (Error, Option<Vec<MapDelete>>)>)
        requires
            old(self).wf(),
            old(bpf).wf(),
            asked.wf(),
        ensures
            final(self).wf(),
            final(bpf).wf(),
            final(self).same_but_registry(old(self)),
            match made {
                Err(e) => {
                    &&& r matches Err((f, deletes)) && f == e && (match deletes {
                        Some(d) => old(bpf).registered@.dom().contains(cgroup.id.0) && compile::views(d@)
                            == maps::all_deletes(old(bpf).registered@[cgroup.id.0]@, cgroup.id.0),
                        None => !old(bpf).registered@.dom().contains(cgroup.id.0),
                    })
                    &&& final(bpf).registered@ == old(bpf).registered@.remove(cgroup.id.0)
                    &&& final(self).handles() == old(self).handles()
                },
                Ok(root) => {
                    let h = HandleModel {
                        key: asked.id.key(),
                        state: SandboxState::Ready,
                        asked,
                        template: asked.template@,
                        policy: match asked.policy {
                            Some(p) => Some(p.name@),
                            None => None,
                        },
                        env: loader::pair_texts(asked.env@),
                        cgroup: Some(cgroup@),
                        supervised: false,
                        rootfs: Some(root@),
                    };
                    &&& r matches Ok(id) && id == asked.id
                    &&& final(bpf).same(old(bpf))
                    &&& final(self).handles() == (match found(old(self).handles(), asked.id.key()) {
                        Some(i) => old(self).handles().update(i, h),
                        None => old(self).handles().push(h),
                    })
                },
            },
    {
        match made {
            Err(e) => {
                let deletes = bpf.deregister_sandbox(&cgroup.id);
                Err((e, deletes))
            },
            Ok(root) => {
                let id = asked.id;
                let handle = SandboxHandle {
                    id,
                    state: SandboxState::Ready,
                    asked,
                    cgroup: Some(cgroup),
                    supervisor: None,
                    rootfs: Some(root),
                };
                let ghost before = self.handles();
                let ghost h = handle@;
                proof {
                    found_is_there(before, id.key());
                }
                match self.find(&id) {
                    Some(i) => {
                        self.registry.set(i, handle);
                        proof {
                            assert(self.handles() =~= before.update(i as int, h));
                        }
                    },
                    None => {
                        self.registry.push(handle);
                        proof {
                            assert(self.handles() =~= before.push(h));
                        }
                    },
                }
                Ok(id)
            },
        }
    }

    /// The policy of a sandbox on the record.
    fn resolve_policy(&self, i: usize) -> (r: Result<Policy, Error>)
        requires
            i < self.registry@.len(),
        ensures
            match policy_of(self.handles()[i as int], self.policies@) {
                Ok(p) => r matches Ok(got) && got@ == p,
                Err(e) => r matches Err(f) && f@ == e,
            },
    {
        proof {
            assert(self.handles()[i as int] == self.registry@[i as int]@);
        }
        match &self.registry[i].asked.policy {
            None => Ok(defaults::default_policy()),
            Some(p) => match self.policies.get(p.name.as_str()) {
                Some(policy) => Ok(policy.clone()),
                None => Err(
                    Error::PolicyInvalid(
                        text::cat3(
                            "sandbox references policy ",
                            text::quote(p.name.as_str()).as_str(),
                            ", which is not registered",
                        ),
                    ),
                ),
            },
        }
    }

    /// The confinement of a launch under a policy.
    pub fn build_launch_policy(&self, policy: &Policy, cmd: &str) -> (r: LaunchPolicy)
        ensures
            r@ == launch_policy(policy@, self.landlock_abi, cmd@),
    {
        let mut landlock = policy.compile_landlock(self.landlock_abi);
        let seccomp_profile = policy.compile_seccomp().profile;
        match &policy.exec_policy {
            None => {
                let known: u64 = landlock_bits::known_at_abi(self.landlock_abi);
                let ghost base = compile::views(landlock.rules@);
                landlock.rules.push(
                    LandlockRule {
                        path: cmd.to_owned(),
                        access_mask: (landlock_bits::EXECUTE | landlock_bits::READ_FILE) & known,
                    },
                );
                let mut exec_paths: Vec<String> = Vec::new();
                exec_paths.push(cmd.to_owned());
                let exec_prefixes: Vec<String> = Vec::new();
                proof {
                    assert(compile::views(landlock.rules@) =~= base.push(command_rule(cmd@, self.landlock_abi)));
                    assert(text::texts(exec_paths@) =~= seq![cmd@]);
                    assert(text::texts(exec_prefixes@) =~= Seq::<Seq<char>>::empty());
                }
                LaunchPolicy { landlock, seccomp_profile, exec_paths, exec_prefixes }
            },
            Some(section) => {
                let (exec_paths, exec_prefixes) = listed(&section.allow);
                LaunchPolicy { landlock, seccomp_profile, exec_paths, exec_prefixes }
            },
        }
    }

    /// Takes up the launch of a payload: the sandbox counts as running from here on, and `finish_exec`
    /// ends that. One payload runs in a sandbox at a time.
    pub fn exec_payload(&mut self, id: &SandboxId, cmd: &str) -> (r: Result<ExecLaunch, Error>)
        requires
            old(self).wf(),
        ensures
            final(self).wf(),
            final(self).same_but_registry(old(self)),
            r matches Ok(l) ==> sandbox::names_ascend(loader::pair_texts(l.env@)),
            match exec_refusal(old(self).handles(), old(self).policies@, *id, cmd@) {
                Some(e) => (r matches Err(f) && f@ == e) && final(self).handles() == old(self).handles(),
                None => {
                    let i = found(old(self).handles(), id.key())->0;
                    let h = old(self).handles()[i];
                    &&& final(self).handles() == with_state(old(self).handles(), i, SandboxState::Running)
                    &&& match parts_missing(h) {
                        Some(e) => r matches Err(f) && f@ == e,
                        None => {
                            let p = policy_of(h, old(self).policies@)->Ok_0;
                            r matches Ok(l) && loader::pair_texts(l.env@) == h.env && l.cgroup_path@
                                == h.cgroup->0.path && l.cgid == h.cgroup->0.id && l.rootfs@ == h.rootfs->0
                                && l.policy@ == launch_policy(p, old(self).landlock_abi, cmd@) && l.bpf_plan@
                                == compile::bpf_plan(p)
                        },
                    }
                },
            },
    {
        let ghost before = self.handles();
        let chars = text::chars_of(cmd);
        if !(chars.len() > 0 && chars[0] == '/') {
            return Err(
                Error::LaunchFailed(
                    text::cat3(
                        "cmd must be an absolute path inside the sandbox, got ",
                        text::quote(cmd).as_str(),
                        " — aivisor does not perform PATH lookup",
                    ),
                ),
            );
        }
        let i: usize = match self.find(id) {
            None => {
                return Err(Error::LaunchFailed("sandbox not found".to_owned()));
            },
            Some(i) => i,
        };
        let policy = match self.resolve_policy(i) {
            Err(e) => {
                return Err(e);
            },
            Ok(p) => p,
        };
        proof {
            assert(before[i as int] == self.registry@[i as int]@);
        }
        if self.registry[i].state == SandboxState::Running {
            return Err(
                Error::LaunchFailed(
                    text::cat3(
                        "sandbox ",
                        id.to_string().as_str(),
                        " is already running a command; aivisor runs one payload per sandbox at a time",
                    ),
                ),
            );
        }
        self.set_state(i, SandboxState::Running);
        proof {
            assert(self.handles()[i as int] == self.registry@[i as int]@);
        }
        let (cgroup_path, cgid) = match &self.registry[i].cgroup {
            None => {
                return Err(Error::LaunchFailed("no cgroup".to_owned()));
            },
            Some(c) => (c.path.clone(), c.id),
        };
        let rootfs = match &self.registry[i].rootfs {
            None => {
                return Err(Error::LaunchFailed("no rootfs".to_owned()));
            },
            Some(r) => r.clone(),
        };
        let env = clone_env(&self.registry[i].asked.env);
        Ok(
            ExecLaunch {
                env,
                cgroup_path,
                cgid,
                rootfs,
                policy: self.build_launch_policy(&policy, cmd),
                bpf_plan: policy.compile_bpf(),
            },
        )
    }

    /// Ends the launch of a payload, whether it ran or not. A sandbox that is gone by now is left
    /// gone.
    pub fn finish_exec(&mut self, id: &SandboxId)
        requires
            old(self).wf(),
        ensures
            final(self).wf(),
            final(self).same_but_registry(old(self)),
            final(self).handles() == (match found(old(self).handles(), id.key()) {
                Some(i) => with_state(old(self).handles(), i, SandboxState::Ready),
                None => old(self).handles(),
            }),
    {
        if let Some(i) = self.find(id) {
            self.set_state(i, SandboxState::Ready);
        }
    }

    /// How to stop a sandbox; `paused` puts it on the record.
    pub fn pause(&self, id: &SandboxId) -> (r: Result<Option<Step>, Error>)
        ensures
            match found(self.handles(), id.key()) {
                None => r matches Err(e) && e@ == ErrorModel::AlreadyTerminated,
                Some(i) => match self.handles()[i].cgroup {
                    Some(c) => r matches Ok(Some(s)) && s@ == cgroup::cgroup_step(
                        ActModel::WriteFile { path: paths::joined(c.path, "cgroup.freeze"@), contents: "1"@ },
                        "freeze failed: "@,
                    ),
                    None => r matches Ok(None),
                },
            },
    {
        match self.find(id) {
            None => Err(Error::AlreadyTerminated),
            Some(i) => {
                proof {
                    assert(self.handles()[i as int] == self.registry@[i as int]@);
                }
                match &self.registry[i].cgroup {
                    Some(c) => Ok(Some(c.freeze())),
                    None => Ok(None),
                }
            },
        }
    }

    /// Puts on the record that a sandbox is stopped.
    pub fn paused(&mut self, id: &SandboxId)
        requires
            old(self).wf(),
        ensures
            final(self).wf(),
            final(self).same_but_registry(old(self)),
            final(self).handles() == (match found(old(self).handles(), id.key()) {
                Some(i) => with_state(old(self).handles(), i, SandboxState::Paused),
                None => old(self).handles(),
            }),
    {
        if let Some(i) = self.find(id) {
            self.set_state(i, SandboxState::Paused);
        }
    }

    /// How to let a sandbox go on; `resumed` puts it on the record.
    pub fn resume(&self, id: &SandboxId) -> (r: Result<Option<Step>, Error>)
        ensures
            match found(self.handles(), id.key()) {
                None => r matches Err(e) && e@ == ErrorModel::AlreadyTerminated,
                Some(i) => match self.handles()[i].cgroup {
                    Some(c) => r matches Ok(Some(s)) && s@ == cgroup::cgroup_step(
                        ActModel::WriteFile { path: paths::joined(c.path, "cgroup.freeze"@), contents: "0"@ },
                        "thaw failed: "@,
                    ),
                    None => r matches Ok(None),
                },
            },
    {
        match self.find(id) {
            None => Err(Error::AlreadyTerminated),
            Some(i) => {
                proof {
                    assert(self.handles()[i as int] == self.registry@[i as int]@);
                }
                match &self.registry[i].cgroup {
                    Some(c) => Ok(Some(c.thaw())),
                    None => Ok(None),
                }
            },
        }
    }

    /// Puts on the record that a sandbox goes on.
    pub fn resumed(&mut self, id: &SandboxId)
        requires
            old(self).wf(),
        ensures
            final(self).wf(),
            final(self).same_but_registry(old(self)),
            final(self).handles() == (match found(old(self).handles(), id.key()) {
                Some(i) => with_state(old(self).handles(), i, SandboxState::Running),
                None => old(self).handles(),
            }),
    {
        if let Some(i) = self.find(id) {
            self.set_state(i, SandboxState::Running);
        }
    }

    /// Takes a sandbox off the record, and says how to take it down. There is nothing to do for one
    /// that is not on the record.
    pub fn destroy(&mut self, id: &SandboxId) -> (r: Option<Vec<Step>>)
        requires
            old(self).wf(),
        ensures
            final(self).wf(),
            final(self).same_but_registry(old(self)),
            match found(old(self).handles(), id.key()) {
                None => r is None && final(self).handles() == old(self).handles(),
                Some(i) => {
                    &&& r matches Some(steps) && compile::views(steps@) == teardown_steps(old(self).handles()[i])
                    &&& final(self).handles() == old(self).handles().remove(i)
                },
            },
    {
        let ghost before = self.handles();
        match self.find(id) {
            None => None,
            Some(i) => {
                let handle = self.registry.remove(i);
                proof {
                    assert(before[i as int] == handle@);
                    assert(self.handles() =~= before.remove(i as int));
                }
                Some(Self::teardown(&handle))
            },
        }
    }

    /// How to take a sandbox down: first what runs in it, then what it stood on, and the BPF
    /// context last, so that nothing in it ever runs without enforcement.
    fn teardown(handle: &SandboxHandle) -> (r: Vec<Step>)
        ensures
            compile::views(r@) == teardown_steps(handle@),
    {
        let ghost h = handle@;
        let mut v: Vec<Step> = Vec::new();
        if handle.supervisor.is_some() {
            v.push(Step::new(Act::KillPayload, Blame::Nobody, ""));
        }
        proof {
            assert(compile::views(v@) =~= kill_steps(h));
        }
        match &handle.cgroup {
            Some(c) => {
                let more = c.destroy();
                mounts::push_steps(&mut v, more);
            },
            None => {},
        }
        proof {
            assert(compile::views(v@) =~= kill_steps(h) + cgroup_steps(h));
        }
        let ghost done = compile::views(v@);
        v.push(Step::new(Act::DetachHooks, Blame::Nobody, ""));
        proof {
            assert(compile::views(v@) =~= done + seq![best_effort(ActModel::DetachHooks)]);
        }
        let ghost done = compile::views(v@);
        match &handle.rootfs {
            Some(r) => match text::rsplit_once(r.upper.as_str(), '/') {
                Some((above, _)) => {
                    v.push(Step::new(Act::RemoveTree(above), Blame::Nobody, ""));
                },
                None => {},
            },
            None => {},
        }
        proof {
            assert(compile::views(v@) =~= done + tree_steps(h));
        }
        let ghost done = compile::views(v@);
        match &handle.cgroup {
            Some(c) => {
                v.push(
                    Step::new(
                        Act::Deregister(c.id.0),
                        Blame::Launch,
                        text::cat3(
                            "delete cgroup ",
                            number::format_u64(c.id.0).as_str(),
                            " from BPF sandboxes map: ",
                        ).as_str(),
                    ),
                );
            },
            None => {},
        }
        proof {
            assert(compile::views(v@) =~= done + context_steps(h));
        }
        v
    }

    /// Where a sandbox's workspace is on the host.
    pub fn workspace_upper_dir(&self, id: &SandboxId) -> (r: Result<String, Error>)
        ensures
            match found(self.handles(), id.key()) {
                None => r matches Err(e) && e@ == not_found(),
                Some(i) => match self.handles()[i].rootfs {
                    None => r matches Err(e) && e@ == ErrorModel::LaunchFailed("no rootfs"@),
                    Some(root) => r matches Ok(p) && p@ == paths::joined(root.upper, "workspace"@),
                },
            },
    {
        match self.find(id) {
            None => Err(Error::LaunchFailed("sandbox not found".to_owned())),
            Some(i) => {
                proof {
                    assert(self.handles()[i as int] == self.registry@[i as int]@);
                }
                match &self.registry[i].rootfs {
                    None => Err(Error::LaunchFailed("no rootfs".to_owned())),
                    Some(root) => Ok(paths::join(root.upper.as_str(), "workspace")),
                }
            },
        }
    }

    /// The sandboxes on the record.
    pub fn list(&self) -> (r: Vec<SandboxSummary>)
        ensures
            compile::views(r@) == self.handles().map_values(
                |h: HandleModel| SummaryModel { key: h.key, state: h.state, template: h.template },
            ),
    {
        let mut v: Vec<SandboxSummary> = Vec::new();
        let ghost all = self.handles().map_values(
            |h: HandleModel| SummaryModel { key: h.key, state: h.state, template: h.template },
        );
        let mut i: usize = 0;
        while i < self.registry.len()
            invariant
                i <= self.registry@.len(),
                all == self.handles().map_values(
                    |h: HandleModel| SummaryModel { key: h.key, state: h.state, template: h.template },
                ),
                compile::views(v@) == all.take(i as int),
            decreases self.registry@.len() - i,
        {
            let ghost done = compile::views(v@);
            let h = &self.registry[i];
            v.push(SandboxSummary { id: h.id, state: h.state, template: h.asked.template.clone() });
            proof {
                assert(self.handles()[i as int] == h@);
                assert(compile::views(v@) =~= done.push(all[i as int]));
                assert(all.take(i + 1) =~= all.take(i as int).push(all[i as int]));
            }
            i = i + 1;
        }
        proof {
            assert(all.take(i as int) =~= all);
        }
        v
    }

    /// The error for a cgroup descriptor that could not be duplicated.
    pub fn dup_refused(m: &str) -> (r: Error)
        ensures
            r@ == ErrorModel::LaunchFailed("dup cgroup fd: "@ + m@),
    {
        let mut t = "dup cgroup fd: ".to_owned();
        t.append(m);
        Error::LaunchFailed(t)
    }
}

/// A sandbox whose payload has ended is ready for the next, and every other sandbox is as it was.
pub proof fn a_finished_payload_leaves_the_sandbox_ready(hs: Seq<HandleModel>, key: Seq<u8>, j: int)
    requires
        one_each(hs),
        found(hs, key) is Some,
        0 <= j < hs.len(),
    ensures
        ({
            let i = found(hs, key)->0;
            let running = with_state(hs, i, SandboxState::Running);
            let done = with_state(running, i, SandboxState::Ready);
            &&& found(running, key) == Some(i)
            &&& found(done, key) == Some(i)
            &&& done[i].state == SandboxState::Ready
            &&& j != i ==> done[j] == hs[j]
        }),
{
    found_is_there(hs, key);
    let i = found(hs, key)->0;
    let running = with_state(hs, i, SandboxState::Running);
    let done = with_state(running, i, SandboxState::Ready);
    found_first(running, key, i);
    found_first(done, key, i);
}

/// A sandbox that was taken off the record is not found again, and every other one still is.
pub proof fn destroying_is_final(hs: Seq<HandleModel>, key: Seq<u8>, other: Seq<u8>)
    requires
        one_each(hs),
        found(hs, key) is Some,
        other != key,
    ensures
        found(hs.remove(found(hs, key)->0), key) is None,
        found(hs.remove(found(hs, key)->0), other) is Some <==> found(hs, other) is Some,
        found(hs, other) is Some ==> hs.remove(found(hs, key)->0)[found(hs.remove(found(hs, key)->0), other)->0]
            == hs[found(hs, other)->0],
{
    found_is_there(hs, key);
    found_is_there(hs, other);
    let i = found(hs, key)->0;
    let rest = hs.remove(i);
    assert forall|k: int| 0 <= k < rest.len() implies (#[trigger] rest[k]).key != key by {
        if k < i {
            assert(rest[k] == hs[k]);
        } else {
            assert(rest[k] == hs[k + 1]);
            assert(hs[i].key != hs[k + 1].key);
        }
    }
    found_none(rest, key);
    found_is_there(rest, other);
    if found(hs, other) is Some {
        let j = found(hs, other)->0;
        let k = if j < i {
            j
        } else {
            j - 1
        };
        assert(rest[k] == hs[j]);
        assert forall|m: int| 0 <= m < k implies (#[trigger] rest[m]).key != other by {
            if m < i {
                assert(rest[m] == hs[m]);
            } else {
                assert(rest[m] == hs[m + 1]);
            }
        }
        found_first(rest, other, k);
    } else {
        assert forall|m: int| 0 <= m < rest.len() implies (#[trigger] rest[m]).key != other by {
            if m < i {
                assert(rest[m] == hs[m]);
            } else {
                assert(rest[m] == hs[m + 1]);
            }
        }
        found_none(rest, other);
    }
}

/// The BPF context of a sandbox is removed only once its processes were killed and its cgroup was
/// seen empty and was removed.
pub proof fn enforcement_outlives_the_processes(h: HandleModel, outcomes: Seq<Option<FailureModel>>)
    requires
        h.cgroup is Some,
        plan::progress(teardown_steps(h), outcomes).1 is None,
        plan::progress(teardown_steps(h), outcomes).0 == teardown_steps(h).len(),
    ensures
        teardown_steps(h).last() == deregister_step(h.cgroup->0.id),
        ({
            let k = kill_steps(h).len() as int;
            &&& teardown_steps(h)[k].act == ActModel::KillCgroup(h.cgroup->0.path)
            &&& teardown_steps(h)[k + 1].act is AwaitEmpty
            &&& teardown_steps(h)[k + 2].act == ActModel::RemoveDir(h.cgroup->0.path)
            &&& outcomes.len() > k + 2
            &&& outcomes[k] is None
            &&& outcomes[k + 1] is None
            &&& outcomes[k + 2] is None
        }),
{
    let s = teardown_steps(h);
    let k = kill_steps(h).len() as int;
    let own = cgroup_steps(h);
    assert(s[k] == own[0]);
    assert(s[k + 1] == own[1]);
    assert(s[k + 2] == own[2]);
    assert(s.last() == context_steps(h)[0]);
    plan::steps_follow_each_other(s, outcomes, k);
    plan::steps_follow_each_other(s, outcomes, k + 1);
    plan::steps_follow_each_other(s, outcomes, k + 2);
    assert(child::strict(s[k]) && child::strict(s[k + 1]) && child::strict(s[k + 2]));
}

/// Where a policy says nothing of programs, the one that is launched can be read and executed, and
/// it is the only one whose identity is allowed to run.
pub proof fn only_the_command_runs(p: PolicyModel, abi: u32, cmd: Seq<char>)
    requires
        p.exec_policy is None,
    ensures
        launch_policy(p, abi, cmd).exec_paths == seq![cmd],
        launch_policy(p, abi, cmd).exec_prefixes.len() == 0,
        compile::permitted(
            launch_policy(p, abi, cmd).landlock,
            cmd,
            landlock_bits::EXECUTE | landlock_bits::READ_FILE,
        ),
{
    let plan = launch_policy(p, abi, cmd).landlock;
    let n = plan.rules.len() - 1;
    assert(plan.rules[n] == command_rule(cmd, abi));
    paths::beneath_itself(cmd);
    assert(((landlock_bits::EXECUTE | landlock_bits::READ_FILE) & landlock_bits::known(abi)) & (
    landlock_bits::EXECUTE | landlock_bits::READ_FILE) == (landlock_bits::EXECUTE | landlock_bits::READ_FILE))
        by (bit_vector);
    assert(paths::beneath(cmd, plan.rules[n].path));
}

} // verus!
