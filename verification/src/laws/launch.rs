//! What a launch comes to: the state of a process that has done its steps.
use vstd::prelude::*;

use crate::paths;
use crate::policy::compile;
use crate::policy::compile::LandlockRuleModel;
use crate::runtime::abi;
use crate::runtime::caps;
use crate::runtime::child;
use crate::runtime::landlock;
use crate::runtime::launcher;
use crate::runtime::launcher::LaunchPolicy;
use crate::runtime::launcher::LaunchPolicyModel;
use crate::runtime::launcher::Launcher;
use crate::runtime::mounts;
use crate::runtime::plan::ActModel;
use crate::runtime::plan::Step;
use crate::runtime::plan::StepModel;
use crate::runtime::rootfs;
use crate::runtime::rootfs::Rootfs;
use crate::runtime::rootfs::RootfsModel;

verus! {

/// A mount that was made.
#[verifier::ext_equal]
pub struct Mounted {
    pub source: Option<Seq<char>>,
    pub target: Seq<char>,
    pub fstype: Option<Seq<char>>,
    pub flags: u64,
    pub data: Option<Seq<char>>,
}

/// A Landlock ruleset: the accesses to files and to the network that it handles, and what it allows
/// beneath which paths.
#[verifier::ext_equal]
pub struct Ruleset {
    pub files: u64,
    pub network: u64,
    /// The root in which the paths are looked up.
    pub root: Seq<char>,
    pub rules: Seq<(Seq<char>, u64)>,
}

/// The state of a process, as far as the steps of a launch change it.
#[verifier::ext_equal]
pub struct World {
    /// The mounts that were made, in their order.
    pub mounts: Seq<Mounted>,
    /// The directories and files that were made, in their order.
    pub made: Seq<Seq<char>>,
    /// The directory of the host that is the root.
    pub root: Seq<char>,
    /// Whether the root is no longer the host's.
    pub moved: bool,
    pub cwd: Seq<char>,
    /// Whether the root before the present one can still be reached.
    pub old_root: bool,
    pub user: Option<u32>,
    pub group: Option<u32>,
    pub no_new_privs: bool,
    pub ambient_empty: bool,
    /// The capabilities that were dropped from the bounding set.
    pub dropped: Set<u64>,
    pub inheritable_empty: bool,
    pub capabilities_empty: bool,
    /// The ruleset that is being filled, and the path that is open for it.
    pub ruleset: Option<Ruleset>,
    pub opened: Option<Seq<char>>,
    /// The ruleset that the process is under.
    pub restricted: Option<Ruleset>,
    /// The profile that was looked up, and the one whose filter is installed.
    pub chosen: Option<Seq<char>>,
    pub filter: Option<Seq<char>>,
    /// The root in which the executables of the policy were identified.
    pub collected_in: Option<Seq<char>>,
    /// How many bytes were awaited, and after how many of them the parent was told.
    pub awaited: nat,
    pub told: Option<nat>,
    pub prepared: (bool, bool, bool),
    pub program: Option<Seq<char>>,
    /// Whether anything was tried that cannot be done in the state that the process was in then.
    pub failed: bool,
}

/// A process that was just born.
pub open spec fn newborn() -> World {
    World {
        mounts: Seq::empty(),
        made: Seq::empty(),
        root: "/"@,
        moved: false,
        cwd: "/"@,
        old_root: false,
        user: None,
        group: None,
        no_new_privs: false,
        ambient_empty: false,
        dropped: Set::empty(),
        inheritable_empty: false,
        capabilities_empty: false,
        ruleset: None,
        opened: None,
        restricted: None,
        chosen: None,
        filter: None,
        collected_in: None,
        awaited: 0,
        told: None,
        prepared: (false, false, false),
        program: None,
        failed: false,
    }
}

/// Whether a process is root of its namespace, with all its capabilities, and under no restriction.
pub open spec fn is_master(w: World) -> bool {
    w.user == Some(0u32) && w.group == Some(0u32) && !w.capabilities_empty && w.restricted is None && w.filter is None
}

/// Whether a process can still build its file system: it is master of its namespace, and sees the host.
pub open spec fn can_build(w: World) -> bool {
    is_master(w) && !w.moved
}

/// What one act makes of the state of a process. The user ids can be changed once the parent, with
/// its first byte, says that they are mapped; and not any more without capabilities. Mounts take a
/// master of the namespace. No filter or ruleset can be had but by one that gains no privileges.
pub open spec fn act_on(w: World, a: ActModel) -> World {
    match a {
        ActModel::AwaitByte => World { awaited: w.awaited + 1, ..w },
        ActModel::SetGroups(g) => World {
            group: Some(g),
            failed: w.failed || w.awaited == 0 || w.capabilities_empty,
            ..w
        },
        ActModel::SetUsers(u) => World {
            user: Some(u),
            failed: w.failed || w.awaited == 0 || w.capabilities_empty,
            ..w
        },
        ActModel::Prctl { option, arg } => if option == 38 && arg == 1 {
            World { no_new_privs: true, ..w }
        } else if option == 47 && arg == 4 {
            World { ambient_empty: true, ..w }
        } else if option == 24 {
            World { dropped: w.dropped.insert(arg), failed: w.failed || !is_master(w), ..w }
        } else {
            World { failed: true, ..w }
        },
        ActModel::ReadCapabilities => w,
        ActModel::ClearInheritable => World { inheritable_empty: true, ..w },
        ActModel::ClearCapabilities => World { capabilities_empty: true, ..w },
        ActModel::MakeDirs(p) => World { made: w.made.push(p), failed: w.failed || !can_build(w), ..w },
        ActModel::Touch(p) => World { made: w.made.push(p), failed: w.failed || !can_build(w), ..w },
        ActModel::Mount { source, target, fstype, flags, data } => World {
            mounts: w.mounts.push(Mounted { source, target, fstype, flags, data }),
            failed: w.failed || !can_build(w),
            ..w
        },
        ActModel::ChangeDir(d) => World { cwd: d, ..w },
        ActModel::PivotRoot { new_root, put_old } => if new_root == "."@ && put_old == "."@ {
            World { root: w.cwd, moved: true, old_root: true, failed: w.failed || !can_build(w), ..w }
        } else {
            World { failed: true, ..w }
        },
        ActModel::Unmount { target, options } => if target == "."@ && options == 2 {
            World { old_root: false, failed: w.failed || !is_master(w), ..w }
        } else {
            World { failed: true, ..w }
        },
        ActModel::CollectExecutables => World {
            collected_in: Some(w.root),
            failed: w.failed || !is_master(w),
            ..w
        },
        ActModel::CreateRuleset { files, network } => World {
            ruleset: Some(Ruleset { files, network, root: w.root, rules: Seq::empty() }),
            ..w
        },
        ActModel::OpenPath(p) => World { opened: Some(p), ..w },
        ActModel::AddRule { path, access } => match w.ruleset {
            Some(s) => if w.opened == Some(path) && w.root == s.root {
                World { ruleset: Some(Ruleset { rules: s.rules.push((path, access)), ..s }), ..w }
            } else {
                World { failed: true, ..w }
            },
            None => World { failed: true, ..w },
        },
        ActModel::RestrictSelf => World { restricted: w.ruleset, failed: w.failed || !w.no_new_privs, ..w },
        ActModel::ChooseFilter(p) => World { chosen: Some(p), ..w },
        ActModel::FilterCalls => World { filter: w.chosen, failed: w.failed || !w.no_new_privs, ..w },
        ActModel::ReportReady => World { told: Some(w.awaited), ..w },
        ActModel::PrepareCommand => World { prepared: (true, w.prepared.1, w.prepared.2), ..w },
        ActModel::PrepareArguments => World { prepared: (w.prepared.0, true, w.prepared.2), ..w },
        ActModel::PrepareEnvironment => World { prepared: (w.prepared.0, w.prepared.1, true), ..w },
        ActModel::Execute(cmd) => World { program: Some(cmd), ..w },
        _ => World { failed: true, ..w },
    }
}

/// What steps, done one after the other, make of the state of a process.
pub open spec fn after(w: World, s: Seq<StepModel>) -> World
    decreases s.len(),
{
    if s.len() == 0 {
        w
    } else {
        act_on(after(w, s.drop_last()), s.last().act)
    }
}

/// A name in a directory.
pub open spec fn in_dir(dir: Seq<char>, name: Seq<char>) -> Seq<char> {
    if dir.len() == 0 || dir.last() == '/' {
        dir + name
    } else {
        dir + "/"@ + name
    }
}

/// The rights of files that a Landlock ABI knows.
pub open spec fn rights_of_abi(abi: u32) -> u64 {
    if abi >= 5 {
        65535
    } else if abi >= 3 {
        32767
    } else if abi == 2 {
        16383
    } else {
        8191
    }
}

/// The mount of a device of the host.
pub open spec fn device(dev: Seq<char>, name: Seq<char>) -> Mounted {
    Mounted { source: Some("/dev/"@ + name), target: in_dir(dev, name), fstype: None, flags: 4097, data: None }
}

proof fn after_both(w: World, a: Seq<StepModel>, b: Seq<StepModel>)
    ensures
        after(w, a + b) == after(after(w, a), b),
    decreases b.len(),
{
    if b.len() == 0 {
        assert(a + b =~= a);
    } else {
        assert((a + b).drop_last() =~= a + b.drop_last());
        assert((a + b).last() == b.last());
        after_both(w, a, b.drop_last());
    }
}

proof fn after_one(w: World, a: StepModel)
    ensures
        after(w, seq![a]) == act_on(w, a.act),
{
    assert(seq![a].drop_last() =~= Seq::<StepModel>::empty());
    assert(after(w, Seq::<StepModel>::empty()) == w);
}

proof fn after_two(w: World, a: StepModel, b: StepModel)
    ensures
        after(w, seq![a, b]) == act_on(act_on(w, a.act), b.act),
{
    assert(seq![a, b] =~= seq![a] + seq![b]);
    after_both(w, seq![a], seq![b]);
    after_one(w, a);
    after_one(act_on(w, a.act), b);
}

proof fn after_four(w: World, a: StepModel, b: StepModel, c: StepModel, d: StepModel)
    ensures
        after(w, seq![a, b, c, d]) == act_on(act_on(act_on(act_on(w, a.act), b.act), c.act), d.act),
{
    assert(seq![a, b, c, d] =~= seq![a, b] + seq![c, d]);
    after_both(w, seq![a, b], seq![c, d]);
    after_two(w, a, b);
    after_two(after(w, seq![a, b]), c, d);
}

proof fn names_are_joined(dir: Seq<char>, name: Seq<char>)
    requires
        name.len() > 0,
        name[0] != '/',
    ensures
        paths::joined(dir, name) == in_dir(dir, name),
{
    reveal_strlit("/");
    assert("/"@ =~= seq!['/']);
    assert(dir.push('/') =~= dir + "/"@);
    if dir.len() == 0 {
        assert(dir + name =~= name);
    }
}

proof fn flags_are()
    ensures
        abi::MS_REC | abi::MS_PRIVATE == 278528,
        abi::MS_NODEV | abi::MS_NOSUID == 6,
        abi::MS_NOSUID | abi::MS_NODEV == 6,
        abi::MS_NOSUID | abi::MS_NODEV | abi::MS_NOEXEC == 14,
        abi::MS_RDONLY | abi::MS_NOSUID | abi::MS_NODEV | abi::MS_NOEXEC == 15,
        abi::MS_NOSUID | abi::MS_NOEXEC == 10,
        abi::MS_BIND | abi::MS_RDONLY == 4097,
{
    assert(abi::MS_REC | abi::MS_PRIVATE == 278528 && abi::MS_NODEV | abi::MS_NOSUID == 6 && abi::MS_NOSUID
        | abi::MS_NODEV == 6 && abi::MS_NOSUID | abi::MS_NODEV | abi::MS_NOEXEC == 14 && abi::MS_RDONLY
        | abi::MS_NOSUID | abi::MS_NODEV | abi::MS_NOEXEC == 15 && abi::MS_NOSUID | abi::MS_NOEXEC == 10
        && abi::MS_BIND | abi::MS_RDONLY == 4097) by (bit_vector);
}

proof fn after_a_directory(w: World, dir: StepModel, mount: StepModel, m: Mounted, p: Seq<char>)
    requires
        can_build(w),
        dir.act == ActModel::MakeDirs(p) || dir.act == ActModel::Touch(p),
        mount.act == (ActModel::Mount {
            source: m.source,
            target: m.target,
            fstype: m.fstype,
            flags: m.flags,
            data: m.data,
        }),
    ensures
        after(w, seq![dir, mount]) == (World { mounts: w.mounts.push(m), made: w.made.push(p), ..w }),
{
    after_two(w, dir, mount);
}

/// The mounts of the device nodes that stand in this order.
pub open spec fn all_devices(dev: Seq<char>) -> Seq<Mounted> {
    seq![
        device(dev, "null"@),
        device(dev, "zero"@),
        device(dev, "full"@),
        device(dev, "random"@),
        device(dev, "urandom"@),
        device(dev, "tty"@),
    ]
}

proof fn after_a_device(w: World, dev: Seq<char>, name: Seq<char>)
    requires
        can_build(w),
        name.len() > 0,
        name[0] != '/',
    ensures
        after(w, mounts::device_steps(dev, name)) == (World {
            mounts: w.mounts.push(device(dev, name)),
            made: w.made.push(in_dir(dev, name)),
            ..w
        }),
{
    names_are_joined(dev, name);
    flags_are();
    let s = mounts::device_steps(dev, name);
    after_a_directory(w, s[0], s[1], device(dev, name), in_dir(dev, name));
    assert(s =~= seq![s[0], s[1]]);
}

proof fn after_devices(w: World, dev: Seq<char>, names: Seq<Seq<char>>)
    requires
        can_build(w),
        forall|i: int| 0 <= i < names.len() ==> (#[trigger] names[i]).len() > 0 && names[i][0] != '/',
    ensures
        after(w, mounts::devices_steps(dev, names)) == (World {
            mounts: w.mounts + Seq::new(names.len(), |i: int| device(dev, names[i])),
            made: w.made + Seq::new(names.len(), |i: int| in_dir(dev, names[i])),
            ..w
        }),
    decreases names.len(),
{
    if names.len() == 0 {
        assert(w.mounts + Seq::new(names.len(), |i: int| device(dev, names[i])) =~= w.mounts);
        assert(w.made + Seq::new(names.len(), |i: int| in_dir(dev, names[i])) =~= w.made);
    } else {
        let front = names.drop_last();
        assert forall|i: int| 0 <= i < front.len() implies (#[trigger] front[i]).len() > 0 && front[i][0]
            != '/' by {
            assert(front[i] == names[i]);
        }
        after_devices(w, dev, front);
        assert(names.last() == names[names.len() - 1]);
        after_both(w, mounts::devices_steps(dev, front), mounts::device_steps(dev, names.last()));
        after_a_device(after(w, mounts::devices_steps(dev, front)), dev, names.last());
        assert((w.mounts + Seq::new(front.len(), |i: int| device(dev, front[i]))).push(device(dev, names.last()))
            =~= w.mounts + Seq::new(names.len(), |i: int| device(dev, names[i])));
        assert((w.made + Seq::new(front.len(), |i: int| in_dir(dev, front[i]))).push(in_dir(dev, names.last()))
            =~= w.made + Seq::new(names.len(), |i: int| in_dir(dev, names[i])));
    }
}

/// The mounts beneath a root: what kind of file system stands where.
pub open spec fn inner_mounts(root: Seq<char>) -> Seq<Mounted> {
    let dev = in_dir(root, "dev"@);
    seq![
        Mounted {
            source: Some("proc"@),
            target: in_dir(root, "proc"@),
            fstype: Some("proc"@),
            flags: 14,
            data: Some("hidepid=2,subset=pid"@),
        },
        Mounted {
            source: Some("sysfs"@),
            target: in_dir(root, "sys"@),
            fstype: Some("sysfs"@),
            flags: 15,
            data: None,
        },
        Mounted {
            source: Some("tmpfs"@),
            target: in_dir(root, "tmp"@),
            fstype: Some("tmpfs"@),
            flags: 14,
            data: Some("size=536870912,mode=1777"@),
        },
        Mounted {
            source: Some("tmpfs"@),
            target: dev,
            fstype: Some("tmpfs"@),
            flags: 6,
            data: Some("size=67108864,mode=755"@),
        },
    ] + all_devices(dev) + seq![
        Mounted {
            source: Some("devpts"@),
            target: in_dir(dev, "pts"@),
            fstype: Some("devpts"@),
            flags: 10,
            data: Some("newinstance,ptmxmode=0666,mode=620"@),
        },
        Mounted {
            source: Some(in_dir(in_dir(dev, "pts"@), "ptmx"@)),
            target: in_dir(dev, "ptmx"@),
            fstype: None,
            flags: 4096,
            data: None,
        },
    ]
}

/// The directories and files that are made beneath a root, in their order.
pub open spec fn inner_paths(root: Seq<char>) -> Seq<Seq<char>> {
    let dev = in_dir(root, "dev"@);
    seq![
        in_dir(root, "proc"@),
        in_dir(root, "sys"@),
        in_dir(root, "tmp"@),
        dev,
        in_dir(dev, "null"@),
        in_dir(dev, "zero"@),
        in_dir(dev, "full"@),
        in_dir(dev, "random"@),
        in_dir(dev, "urandom"@),
        in_dir(dev, "tty"@),
        in_dir(dev, "pts"@),
        in_dir(dev, "ptmx"@),
        in_dir(root, "workspace"@),
    ]
}

/// The overlay of a root file system.
pub open spec fn overlay(r: RootfsModel) -> Mounted {
    Mounted {
        source: Some("overlay"@),
        target: r.merged,
        fstype: Some("overlay"@),
        flags: 6,
        data: Some("lowerdir="@ + r.lower + ",upperdir="@ + r.upper + ",workdir="@ + r.work + ",xino=off"@),
    }
}

/// The mount that keeps all others from showing elsewhere.
pub open spec fn all_private() -> Mounted {
    Mounted { source: None, target: "/"@, fstype: None, flags: 278528, data: None }
}

proof fn after_dev(w: World, root: Seq<char>)
    requires
        can_build(w),
    ensures
        ({
            let dev = in_dir(root, "dev"@);
            after(w, mounts::dev_steps(root)) == (World {
                mounts: w.mounts + inner_mounts(root).skip(3),
                made: w.made + inner_paths(root).subrange(3, 12),
                ..w
            })
        }),
{
    reveal_strlit("dev");
    reveal_strlit("pts");
    reveal_strlit("ptmx");
    reveal_strlit("null");
    reveal_strlit("zero");
    reveal_strlit("full");
    reveal_strlit("random");
    reveal_strlit("urandom");
    reveal_strlit("tty");
    let dev = in_dir(root, "dev"@);
    let pts = in_dir(dev, "pts"@);
    names_are_joined(root, "dev"@);
    names_are_joined(dev, "pts"@);
    names_are_joined(dev, "ptmx"@);
    names_are_joined(pts, "ptmx"@);
    flags_are();
    let all = inner_mounts(root);
    let names = mounts::device_names();
    let head = mounts::dev_steps(root).take(2);
    let tail = mounts::pts_steps(dev);
    assert(mounts::dev_steps(root) =~= head + mounts::devices_steps(dev, names) + tail);
    after_both(w, head + mounts::devices_steps(dev, names), tail);
    after_both(w, head, mounts::devices_steps(dev, names));
    assert(head =~= seq![head[0], head[1]]);
    after_a_directory(w, head[0], head[1], all[3], dev);
    let one = after(w, head);
    after_devices(one, dev, names);
    let two = after(one, mounts::devices_steps(dev, names));
    after_both(two, seq![tail[0], tail[1]], seq![tail[2], tail[3]]);
    assert(tail =~= seq![tail[0], tail[1]] + seq![tail[2], tail[3]]);
    after_a_directory(two, tail[0], tail[1], all[10], pts);
    after_a_directory(after(two, seq![tail[0], tail[1]]), tail[2], tail[3], all[11], in_dir(dev, "ptmx"@));
    let three = after(w, mounts::dev_steps(root));
    assert(three.mounts =~= w.mounts + all.skip(3));
    assert(three.made =~= w.made + inner_paths(root).subrange(3, 12));
}

proof fn after_building(w: World, r: RootfsModel)
    requires
        can_build(w),
    ensures
        after(w, child::build_steps(r)) == (World {
            mounts: w.mounts + seq![all_private(), overlay(r)] + inner_mounts(r.merged),
            made: w.made + inner_paths(r.merged),
            root: r.merged,
            moved: true,
            cwd: "/"@,
            old_root: false,
            collected_in: Some(r.merged),
            ..w
        }),
{
    reveal_strlit("proc");
    reveal_strlit("sys");
    reveal_strlit("tmp");
    reveal_strlit("workspace");
    let root = r.merged;
    names_are_joined(root, "proc"@);
    names_are_joined(root, "sys"@);
    names_are_joined(root, "tmp"@);
    names_are_joined(root, "workspace"@);
    flags_are();
    let all = inner_mounts(root);
    let s = child::build_steps(r);
    let n = mounts::dev_steps(root).len() as int;
    let p2 = mounts::proc_steps(root);
    let p3 = mounts::sys_steps(root);
    let p4 = mounts::tmp_steps(root);
    let p5 = mounts::dev_steps(root);
    let back = s.skip(8 + n);
    let p6 = back.take(1);
    let p7 = mounts::pivot_steps(root);
    let p8 = back.skip(5);
    assert(s =~= s.take(2) + p2 + p3 + p4 + p5 + p6 + p7 + p8);
    assert(s.take(2) =~= seq![s[0], s[1]]);
    after_both(w, s.take(2) + p2 + p3 + p4 + p5 + p6 + p7, p8);
    after_both(w, s.take(2) + p2 + p3 + p4 + p5 + p6, p7);
    after_both(w, s.take(2) + p2 + p3 + p4 + p5, p6);
    after_both(w, s.take(2) + p2 + p3 + p4, p5);
    after_both(w, s.take(2) + p2 + p3, p4);
    after_both(w, s.take(2) + p2, p3);
    after_both(w, s.take(2), p2);
    after_two(w, s[0], s[1]);
    let w1 = after(w, s.take(2));
    assert(w1 == (World { mounts: w.mounts.push(all_private()).push(overlay(r)), ..w }));
    assert(p2 =~= seq![p2[0], p2[1]]);
    assert(p3 =~= seq![p3[0], p3[1]]);
    assert(p4 =~= seq![p4[0], p4[1]]);
    after_a_directory(w1, p2[0], p2[1], all[0], in_dir(root, "proc"@));
    let w2 = after(w1, p2);
    after_a_directory(w2, p3[0], p3[1], all[1], in_dir(root, "sys"@));
    let w3 = after(w2, p3);
    after_a_directory(w3, p4[0], p4[1], all[2], in_dir(root, "tmp"@));
    let w4 = after(w3, p4);
    after_dev(w4, root);
    let w5 = after(w4, p5);
    assert(p6 =~= seq![p6[0]]);
    after_one(w5, p6[0]);
    let w6 = after(w5, p6);
    assert(p7 =~= seq![p7[0], p7[1], p7[2], p7[3]]);
    after_four(w6, p7[0], p7[1], p7[2], p7[3]);
    let w7 = after(w6, p7);
    assert(p8 =~= seq![p8[0]]);
    after_one(w7, p8[0]);
    let end = after(w, s);
    assert(end.mounts =~= w.mounts + seq![all_private(), overlay(r)] + all);
    assert(end.made =~= w.made + inner_paths(root));
}

proof fn after_bounding(w: World, s: Seq<StepModel>)
    requires
        is_master(w),
        s.len() <= 64,
        forall|i: int| 0 <= i < s.len() ==> #[trigger] s[i] == caps::bounding_step(i as u64),
    ensures
        after(w, s) == (World { dropped: after(w, s).dropped, ..w }),
        forall|c: u64| #[trigger] after(w, s).dropped.contains(c) <==> w.dropped.contains(c) || c < s.len(),
    decreases s.len(),
{
    if s.len() > 0 {
        let front = s.drop_last();
        assert forall|i: int| 0 <= i < front.len() implies #[trigger] front[i] == caps::bounding_step(i as u64) by {
            assert(front[i] == s[i]);
        }
        after_bounding(w, front);
        assert(s.last() == s[s.len() - 1]);
        assert(s.last().act == (ActModel::Prctl { option: 24, arg: (s.len() - 1) as u64 }));
    }
}

proof fn after_dropping(w: World)
    requires
        is_master(w),
    ensures
        ({
            let t = after(w, caps::drop_steps());
            &&& t == (World { ambient_empty: true, inheritable_empty: true, dropped: t.dropped, ..w })
            &&& forall|c: u64| #[trigger] t.dropped.contains(c) <==> w.dropped.contains(c) || c < 64
        }),
{
    let s = caps::drop_steps();
    let a = seq![caps::ambient_step()];
    let b = caps::bounding_steps();
    let c = seq![s[65], s[66]];
    assert(s =~= a + b + c);
    after_both(w, a + b, c);
    after_both(w, a, b);
    after_one(w, s[0]);
    let w1 = after(w, a);
    assert(w1 == (World { ambient_empty: true, ..w }));
    after_bounding(w1, b);
    after_two(after(w1, b), s[65], s[66]);
}

proof fn after_rules(w: World, rules: Seq<LandlockRuleModel>, handled: u64, set: Ruleset)
    requires
        set.root == w.root,
        w.ruleset == Some(set),
    ensures
        ({
            let t = after(w, landlock::rules_steps(rules, handled));
            let got = t.ruleset->0;
            &&& t == (World { ruleset: t.ruleset, opened: t.opened, ..w })
            &&& t.ruleset is Some
            &&& got == (Ruleset { rules: got.rules, ..set })
            &&& forall|x: (Seq<char>, u64)| #[trigger]
                got.rules.contains(x) <==> set.rules.contains(x) || exists|k: int|
                    0 <= k < rules.len() && (#[trigger] rules[k]).path == x.0 && rules[k].access_mask & handled == x.1
                        && x.1 != 0
        }),
    decreases rules.len(),
{
    if rules.len() > 0 {
        let front = rules.drop_last();
        after_rules(w, front, handled, set);
        let before = landlock::rules_steps(front, handled);
        let t = after(w, before);
        let had = t.ruleset->0;
        let access = rules.last().access_mask & handled;
        let path = rules.last().path;
        let got = after(w, landlock::rules_steps(rules, handled)).ruleset->0;
        if access != 0 {
            let own = landlock::rule_steps(path, access);
            after_both(w, before, own);
            after_two(t, own[0], own[1]);
            assert(own =~= seq![own[0], own[1]]);
            assert(got.rules == had.rules.push((path, access)));
        }
        assert forall|x: (Seq<char>, u64)| #[trigger] got.rules.contains(x) <==> set.rules.contains(x)
            || exists|k: int|
                0 <= k < rules.len() && (#[trigger] rules[k]).path == x.0 && rules[k].access_mask & handled == x.1
                    && x.1 != 0 by {
            let here = access != 0 && x == (path, access);
            if access != 0 {
                if got.rules.contains(x) {
                    let j = choose|j: int| 0 <= j < got.rules.len() && got.rules[j] == x;
                    if j < had.rules.len() {
                        assert(had.rules[j] == x);
                    }
                }
                if had.rules.contains(x) {
                    let j = choose|j: int| 0 <= j < had.rules.len() && had.rules[j] == x;
                    assert(got.rules[j] == x);
                }
                assert(got.rules[had.rules.len() as int] == (path, access));
            }
            assert(got.rules.contains(x) <==> had.rules.contains(x) || here);
            if here {
                assert(rules[rules.len() - 1].path == x.0);
            }
            if exists|k: int|
                0 <= k < front.len() && (#[trigger] front[k]).path == x.0 && front[k].access_mask & handled == x.1
                    && x.1 != 0 {
                let k = choose|k: int|
                    0 <= k < front.len() && (#[trigger] front[k]).path == x.0 && front[k].access_mask & handled == x.1
                        && x.1 != 0;
                assert(rules[k] == front[k]);
            }
            if exists|k: int|
                0 <= k < rules.len() && (#[trigger] rules[k]).path == x.0 && rules[k].access_mask & handled == x.1
                    && x.1 != 0 {
                let k = choose|k: int|
                    0 <= k < rules.len() && (#[trigger] rules[k]).path == x.0 && rules[k].access_mask & handled == x.1
                        && x.1 != 0;
                if k < front.len() {
                    assert(front[k] == rules[k]);
                } else {
                    assert(rules[k] == rules.last());
                }
            }
        }
    }
}

/// The rights that are known at an ABI are those that the kernel has had since that ABI.
pub proof fn rights_are_known(abi: u32)
    ensures
        crate::policy::landlock_bits::known(abi) == rights_of_abi(abi),
{
    assert(crate::policy::landlock_bits::known(abi) == rights_of_abi(abi)) by (bit_vector);
}

/// What a policy's ruleset allows: beneath the path of each rule, the rule's rights that the ABI
/// knows, where there are any, and nothing else.
pub open spec fn allows_what_the_plan_allows(set: Ruleset, rules: Seq<LandlockRuleModel>, abi: u32) -> bool {
    &&& set.files == rights_of_abi(abi)
    &&& set.network == 0
    &&& forall|x: (Seq<char>, u64)| #[trigger]
        set.rules.contains(x) <==> exists|k: int|
            0 <= k < rules.len() && (#[trigger] rules[k]).path == x.0 && rules[k].access_mask & rights_of_abi(abi)
                == x.1 && x.1 != 0
}

proof fn after_restricting(w: World, p: LaunchPolicyModel)
    requires
        is_master(w),
        w.no_new_privs,
        w.awaited > 0,
    ensures
        ({
            let t = after(w, child::restrict_steps(p));
            &&& t == (World {
                ambient_empty: true,
                inheritable_empty: true,
                capabilities_empty: true,
                no_new_privs: true,
                user: Some(1000u32),
                group: Some(1000u32),
                chosen: Some(p.seccomp_profile),
                filter: Some(p.seccomp_profile),
                dropped: t.dropped,
                ruleset: t.ruleset,
                opened: t.opened,
                restricted: t.restricted,
                ..w
            })
            &&& forall|c: u64| c < 64 ==> #[trigger] t.dropped.contains(c)
            &&& t.restricted is Some && t.restricted->0.root == w.root
            &&& allows_what_the_plan_allows(t.restricted->0, p.landlock.rules, p.landlock.abi)
        }),
{
    let a = caps::drop_steps();
    let b = landlock::landlock_steps(p.landlock);
    let c = child::filter_steps(p.seccomp_profile);
    let d = caps::unprivileged_steps(1000, 1000);
    let e = caps::clear_steps();
    assert(child::restrict_steps(p) == a + b + c + d + e);
    after_both(w, a + b + c + d, e);
    after_both(w, a + b + c, d);
    after_both(w, a + b, c);
    after_both(w, a, b);
    after_dropping(w);
    let w1 = after(w, a);
    let abi = p.landlock.abi;
    rights_are_known(abi);
    let h = rights_of_abi(abi);
    let mid = landlock::rules_steps(p.landlock.rules, h);
    let n = b.len() as int;
    assert(b =~= seq![b[0]] + mid + seq![b[n - 1]]);
    after_both(w1, seq![b[0]] + mid, seq![b[n - 1]]);
    after_both(w1, seq![b[0]], mid);
    after_one(w1, b[0]);
    let set = Ruleset { files: h, network: 0, root: w.root, rules: Seq::empty() };
    let w2 = after(w1, seq![b[0]]);
    assert(w2 == (World { ruleset: Some(set), ..w1 }));
    after_rules(w2, p.landlock.rules, h, set);
    let w3 = after(w2, mid);
    after_one(w3, b[n - 1]);
    let w4 = after(w1, b);
    assert(w4 == (World { restricted: w3.ruleset, ..w3 }));
    assert(c =~= seq![c[0]] + seq![c[1], c[2]]);
    after_both(w4, seq![c[0]], seq![c[1], c[2]]);
    after_one(w4, c[0]);
    after_two(after(w4, seq![c[0]]), c[1], c[2]);
    let w5 = after(w4, c);
    assert(d =~= seq![d[0], d[1]]);
    after_two(w5, d[0], d[1]);
    let w6 = after(w5, d);
    assert(e =~= seq![e[0]]);
    after_one(w6, e[0]);
    assert forall|x: (Seq<char>, u64)| #[trigger] w3.ruleset->0.rules.contains(x) <==> exists|k: int|
        0 <= k < p.landlock.rules.len() && (#[trigger] p.landlock.rules[k]).path == x.0
            && p.landlock.rules[k].access_mask & h == x.1 && x.1 != 0 by {
        assert(!set.rules.contains(x));
    }
}

/// The state of a process that did all the child does before it tells the parent.
pub open spec fn confined(r: RootfsModel, p: LaunchPolicyModel, w: World) -> bool {
    // The root is the overlay of the template, and the host is out of sight.
    &&& w.root == r.merged && w.moved && w.cwd == "/"@ && !w.old_root
    &&& w.mounts == seq![all_private(), overlay(r)] + inner_mounts(r.merged)
    &&& w.made == inner_paths(r.merged)
    &&& w.collected_in == Some(r.merged)
    // No privilege is left, and none can come back.
    &&& w.user == Some(1000u32) && w.group == Some(1000u32)
    &&& w.no_new_privs && w.ambient_empty && w.inheritable_empty && w.capabilities_empty
    &&& forall|c: u64| c < 64 ==> #[trigger] w.dropped.contains(c)
    // The policy holds.
    &&& w.filter == Some(p.seccomp_profile)
    &&& w.restricted is Some && w.restricted->0.root == r.merged && allows_what_the_plan_allows(w.restricted->0, p.landlock.rules, p.landlock.abi)
    &&& w.awaited == 1 && !w.failed
    &&& w.program is None
}

proof fn after_confinement(r: RootfsModel, p: LaunchPolicyModel)
    ensures
        confined(r, p, after(newborn(), child::confinement_steps(r, p))),
        after(newborn(), child::confinement_steps(r, p)).told is None,
        after(newborn(), child::confinement_steps(r, p)).prepared == (false, false, false),
{
    let s = child::confinement_steps(r, p);
    let head = s.take(4);
    let b = child::build_steps(r);
    let c = child::restrict_steps(p);
    assert(s =~= head + b + c);
    after_both(newborn(), head + b, c);
    after_both(newborn(), head, b);
    assert(head =~= seq![s[0], s[1], s[2], s[3]]);
    after_four(newborn(), s[0], s[1], s[2], s[3]);
    let w1 = after(newborn(), head);
    after_building(w1, r);
    let w2 = after(w1, b);
    after_restricting(w2, p);
    assert(w2.mounts =~= seq![all_private(), overlay(r)] + inner_mounts(r.merged));
    assert(w2.made =~= inner_paths(r.merged));
}

proof fn what_was_told_stays_told(w: World, s: Seq<StepModel>, i: int)
    requires
        0 <= i < s.len(),
        s[i].act is ReportReady || s[i].act is Execute,
    ensures
        s[i].act is ReportReady ==> after(w, s).told is Some,
        s[i].act is Execute ==> after(w, s).program is Some,
    decreases s.len(),
{
    if i < s.len() - 1 {
        assert(s.drop_last()[i] == s[i]);
        what_was_told_stays_told(w, s.drop_last(), i);
    }
}

proof fn nothing_runs_early(r: RootfsModel, p: LaunchPolicyModel, n: int)
    requires
        0 <= n < child::confinement_steps(r, p).len(),
    ensures
        !(child::confinement_steps(r, p)[n].act is ReportReady),
        !(child::confinement_steps(r, p)[n].act is Execute),
{
    let s = child::confinement_steps(r, p);
    after_confinement(r, p);
    if s[n].act is ReportReady || s[n].act is Execute {
        what_was_told_stays_told(newborn(), s, n);
    }
}

/// What `aivisor run` is for. When the child tells its parent that it is ready, its root is the
/// overlay of the template, with `/proc`, `/sys`, `/tmp` and `/dev` mounted in it before the move
/// into it; the host is out of sight; the child is an unprivileged user without any capability or a
/// way to one; and it is under the policy's Landlock rules and the policy's filter. It tells the
/// parent after one byte and runs nothing before a second one came. What it then runs is the
/// command, in that same state.
pub proof fn a_launch_ends_in_the_sandbox(r: RootfsModel, p: LaunchPolicyModel, cmd: Seq<char>, n: int)
    requires
        0 <= n < child::child_steps(r, p, cmd).len(),
    ensures
        ({
            let s = child::child_steps(r, p, cmd);
            let w = after(newborn(), s.take(n));
            &&& s[n].act is ReportReady ==> confined(r, p, w) && w.told is None
            &&& s[n].act is Execute ==> s[n].act == ActModel::Execute(cmd) && n == s.len() - 1 && confined(
                r,
                p,
                (World { awaited: 1, ..w }),
            ) && w.awaited == 2 && w.told == Some(1nat) && w.prepared == (true, true, true)
        }),
        child::child_steps(r, p, cmd).last().act == ActModel::Execute(cmd),
        exists|k: int|
            0 <= k < child::child_steps(r, p, cmd).len() && (#[trigger] child::child_steps(r, p, cmd)[k]).act
                is ReportReady,
{
    let s = child::child_steps(r, p, cmd);
    let front = child::confinement_steps(r, p);
    let back = child::release_steps(cmd);
    let m = front.len() as int;
    assert(s =~= front + back);
    after_confinement(r, p);
    let w = after(newborn(), front);
    assert(s.take(m) =~= front);
    assert(s.take(m + 5) =~= front + seq![back[0], back[1], back[2], back[3]] + seq![back[4]]);
    after_both(newborn(), front + seq![back[0], back[1], back[2], back[3]], seq![back[4]]);
    after_both(newborn(), front, seq![back[0], back[1], back[2], back[3]]);
    after_four(w, back[0], back[1], back[2], back[3]);
    after_one(after(w, seq![back[0], back[1], back[2], back[3]]), back[4]);
    assert(s[m] == back[0]);
    assert(s.last() == back[5]);
    if n > m {
        assert(s[n] == back[n - m]);
    } else if n < m {
        assert(s[n] == front[n]);
        nothing_runs_early(r, p, n);
    }
}

/// The place in the list of mounts of the mount that the step at `i` makes.
pub open spec fn place(s: Seq<StepModel>, i: int) -> int {
    after(newborn(), s.take(i)).mounts.len() as int
}

proof fn mounts_grow(s: Seq<StepModel>, i: int, j: int)
    requires
        0 <= i <= j <= s.len(),
    ensures
        place(s, i) <= place(s, j),
        i < j && s[i].act is Mount ==> place(s, i) < place(s, j),
        after(newborn(), s.take(i)).mounts.is_prefix_of(after(newborn(), s.take(j)).mounts),
        i < j ==> (s[i].act matches ActModel::Mount { source, target, fstype, flags, data } ==> after(
            newborn(),
            s.take(j),
        ).mounts[place(s, i)] == (Mounted { source, target, fstype, flags, data })),
    decreases j - i,
{
    if i < j {
        mounts_grow(s, i, j - 1);
        assert(s.take(j).drop_last() =~= s.take(j - 1));
        assert(s.take(j).last() == s[j - 1]);
    }
}

proof fn every_mount_was_made(s: Seq<StepModel>, k: int, n: int) -> (i: int)
    requires
        0 <= n <= s.len(),
        0 <= k < after(newborn(), s.take(n)).mounts.len(),
    ensures
        0 <= i < n,
        s[i].act is Mount,
        place(s, i) == k,
    decreases n,
{
    if n == 0 {
        assert(s.take(0) =~= Seq::<StepModel>::empty());
        0
    } else {
        assert(s.take(n).drop_last() =~= s.take(n - 1));
        assert(s.take(n).last() == s[n - 1]);
        if k < after(newborn(), s.take(n - 1)).mounts.len() {
            every_mount_was_made(s, k, n - 1)
        } else {
            n - 1
        }
    }
}

/// A process that moved into a new root can build no more: a later mount fails.
proof fn pivots_end_the_building(s: Seq<StepModel>, j: int, i: int, n: int)
    requires
        0 <= j < n <= s.len(),
        s[j].act is PivotRoot,
    ensures
        ({
            let w = after(newborn(), s.take(n));
            &&& w.moved || w.failed
            &&& j < i < n && s[i].act is Mount ==> w.failed
        }),
    decreases n,
{
    assert(s.take(n).drop_last() =~= s.take(n - 1));
    assert(s.take(n).last() == s[n - 1]);
    if j < n - 1 {
        pivots_end_the_building(s, j, i, n - 1);
    }
}

/// Whether the step at `i` is the one that mounts the overlay of a template on the new root, before
/// every mount but that on the host's own root and before the move into the new root.
pub open spec fn mounts_the_template(s: Seq<StepModel>, i: int, r: RootfsModel) -> bool {
    &&& 0 <= i < s.len()
    &&& s[i].act matches ActModel::Mount { source: _, target, fstype, flags: _, data } && fstype == Some("overlay"@)
        && target == r.merged && data == Some(
        "lowerdir="@ + r.lower + ",upperdir="@ + r.upper + ",workdir="@ + r.work + ",xino=off"@,
    )
    &&& forall|j: int|
        0 <= j < s.len() && j != i ==> (#[trigger] s[j].act matches ActModel::Mount {
            source: _,
            target,
            fstype,
            flags: _,
            data: _,
        } ==> fstype != Some("overlay"@) && (target == "/"@ || i < j))
    &&& forall|j: int| 0 <= j < s.len() && #[trigger] s[j].act is PivotRoot ==> i < j
}

/// The sandbox's files are those of the template: exactly one step mounts an overlay, of the
/// template's directory, on the new root. It comes before every other mount but the one that makes
/// the host's root private, and before the move into the new root.
pub proof fn the_template_is_mounted_once(r: RootfsModel, p: LaunchPolicyModel, cmd: Seq<char>)
    ensures
        exists|i: int| mounts_the_template(child::child_steps(r, p, cmd), i, r),
{
    reveal_strlit("overlay");
    reveal_strlit("proc");
    reveal_strlit("sysfs");
    reveal_strlit("tmpfs");
    reveal_strlit("devpts");
    reveal_strlit("/");
    let s = child::child_steps(r, p, cmd);
    let n = s.len() as int;
    let front = child::confinement_steps(r, p);
    after_confinement(r, p);
    let back = child::release_steps(cmd);
    assert(s =~= front + back);
    assert(s.take(front.len() as int) =~= front);
    let w = after(newborn(), front);
    let i = every_mount_was_made(s, 1, front.len() as int);
    mounts_grow(s, i, front.len() as int);
    assert(w.mounts[1] == overlay(r));
    assert forall|j: int| 0 <= j < s.len() && j != i implies (#[trigger] s[j].act matches ActModel::Mount {
        source: _,
        target,
        fstype,
        flags: _,
        data: _,
    } ==> fstype != Some("overlay"@) && (target == "/"@ || i < j)) by {
        if s[j].act is Mount {
            if j >= front.len() {
                assert(s[j] == back[j - front.len()]);
            } else {
                mounts_grow(s, j, front.len() as int);
                if i < j {
                    mounts_grow(s, i, j);
                } else {
                    mounts_grow(s, j, i);
                }
                let k = place(s, j);
                assert(k != 1);
                assert(w.mounts[k] == (seq![all_private(), overlay(r)] + inner_mounts(r.merged))[k]);
                assert(w.mounts[k].fstype != Some("overlay"@)) by {
                    assert("overlay"@[0] == 'o');
                    assert("proc"@[0] == 'p');
                    assert("sysfs"@[0] == 's');
                    assert("tmpfs"@[0] == 't');
                    assert("devpts"@[0] == 'd');
                }
                assert(k == 0 ==> w.mounts[k].target == "/"@);
            }
        }
    }
    assert forall|j: int| 0 <= j < s.len() && #[trigger] s[j].act is PivotRoot implies i < j by {
        if j >= front.len() {
            assert(s[j] == back[j - front.len()]);
        } else if j < i {
            pivots_end_the_building(s, j, i, front.len() as int);
        }
    }
    assert(mounts_the_template(s, i, r));
}

/// Whatever list of steps `Launcher::child_setup` answers with, a child that does them ends in the
/// sandbox, and runs the command there.
pub proof fn child_setup_confines(rootfs: &Rootfs, policy: &LaunchPolicy, cmd: &str, steps: Vec<Step>)
    requires
        call_ensures(Launcher::child_setup, (rootfs, policy, cmd), steps),
    ensures
        exists|i: int| mounts_the_template(compile::views(steps@), i, rootfs@),
        ({
            let s = compile::views(steps@);
            let w = after(newborn(), s.drop_last());
            &&& s.len() > 0 && s.last().act == ActModel::Execute(cmd@)
            &&& w.awaited == 2 && w.told == Some(1nat) && w.prepared == (true, true, true)
            &&& confined(rootfs@, policy@, (World { awaited: 1, ..w }))
        }),
{
    let s = compile::views(steps@);
    the_template_is_mounted_once(rootfs@, policy@, cmd@);
    a_launch_ends_in_the_sandbox(rootfs@, policy@, cmd@, s.len() - 1);
    assert(s.take(s.len() - 1) =~= s.drop_last());
}

} // verus!
