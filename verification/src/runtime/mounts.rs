//! The mounts of a sandbox.
use vstd::prelude::*;

use crate::paths;
use crate::policy::compile;
use crate::runtime::abi;
use crate::runtime::plan::Act;
use crate::runtime::plan::ActModel;
use crate::runtime::plan::Blame;
use crate::runtime::plan::Step;
use crate::runtime::plan::StepModel;
use crate::text;

verus! {

/// A step whose refusal is told in a plain sentence.
pub open spec fn plain_step(act: ActModel, lead: Seq<char>) -> StepModel {
    StepModel { act, blame: Blame::Plain, lead, invalid_ok: false }
}

/// A mount of a file system of its own.
pub open spec fn fresh_mount(
    fstype: Seq<char>,
    target: Seq<char>,
    flags: u64,
    data: Option<Seq<char>>,
    lead: Seq<char>,
) -> StepModel {
    plain_step(ActModel::Mount { source: Some(fstype), target, fstype: Some(fstype), flags, data }, lead)
}

/// A mount of one file on another.
pub open spec fn bind_mount(source: Seq<char>, target: Seq<char>, flags: u64, lead: Seq<char>) -> StepModel {
    plain_step(ActModel::Mount { source: Some(source), target, fstype: None, flags, data: None }, lead)
}

/// Keeps what is mounted here from showing elsewhere.
pub open spec fn private_steps() -> Seq<StepModel> {
    seq![
        plain_step(
            ActModel::Mount {
                source: None,
                target: "/"@,
                fstype: None,
                flags: abi::MS_REC | abi::MS_PRIVATE,
                data: None,
            },
            "remount / private: "@,
        ),
    ]
}

/// Moves into the new root and lets go of the old one.
pub open spec fn pivot_steps(new_root: Seq<char>) -> Seq<StepModel> {
    seq![
        plain_step(ActModel::ChangeDir(new_root), "chdir(new_root): "@),
        plain_step(ActModel::PivotRoot { new_root: "."@, put_old: "."@ }, "pivot_root: "@),
        plain_step(
            ActModel::Unmount { target: "."@, options: abi::MNT_DETACH },
            "umount2(old root, MNT_DETACH): "@,
        ),
        plain_step(ActModel::ChangeDir("/"@), "chdir(/): "@),
    ]
}

/// `/proc`: of its own processes only.
pub open spec fn proc_steps(merged: Seq<char>) -> Seq<StepModel> {
    let target = paths::joined(merged, "proc"@);
    seq![
        plain_step(ActModel::MakeDirs(target), "mkdir proc: "@),
        fresh_mount(
            "proc"@,
            target,
            abi::MS_NOSUID | abi::MS_NODEV | abi::MS_NOEXEC,
            Some("hidepid=2,subset=pid"@),
            "mount proc: "@,
        ),
    ]
}

/// `/sys`: read-only.
pub open spec fn sys_steps(merged: Seq<char>) -> Seq<StepModel> {
    let target = paths::joined(merged, "sys"@);
    seq![
        plain_step(ActModel::MakeDirs(target), "mkdir sys: "@),
        fresh_mount(
            "sysfs"@,
            target,
            abi::MS_RDONLY | abi::MS_NOSUID | abi::MS_NODEV | abi::MS_NOEXEC,
            None,
            "mount sys: "@,
        ),
    ]
}

/// `/tmp`.
pub open spec fn tmp_steps(merged: Seq<char>) -> Seq<StepModel> {
    let target = paths::joined(merged, "tmp"@);
    seq![
        plain_step(ActModel::MakeDirs(target), "mkdir tmp: "@),
        fresh_mount(
            "tmpfs"@,
            target,
            abi::MS_NOSUID | abi::MS_NODEV | abi::MS_NOEXEC,
            Some("size=536870912,mode=1777"@),
            "mount tmp: "@,
        ),
    ]
}

/// The device nodes of a sandbox.
pub open spec fn device_names() -> Seq<Seq<char>> {
    seq!["null"@, "zero"@, "full"@, "random"@, "urandom"@, "tty"@]
}

/// Puts a device node of the host under the new root.
pub open spec fn device_steps(dev: Seq<char>, name: Seq<char>) -> Seq<StepModel> {
    let node = paths::joined(dev, name);
    seq![
        plain_step(ActModel::Touch(node), "touch dev/"@ + name + ": "@),
        bind_mount("/dev/"@ + name, node, abi::MS_BIND | abi::MS_RDONLY, "bind dev/"@ + name + ": "@),
    ]
}

/// Puts the listed device nodes under the new root, one after the other.
pub open spec fn devices_steps(dev: Seq<char>, names: Seq<Seq<char>>) -> Seq<StepModel>
    decreases names.len(),
{
    if names.len() == 0 {
        Seq::empty()
    } else {
        devices_steps(dev, names.drop_last()) + device_steps(dev, names.last())
    }
}

/// The terminals of `/dev`.
pub open spec fn pts_steps(dev: Seq<char>) -> Seq<StepModel> {
    let pts = paths::joined(dev, "pts"@);
    let ptmx = paths::joined(dev, "ptmx"@);
    seq![
        plain_step(ActModel::MakeDirs(pts), "mkdir dev/pts: "@),
        fresh_mount(
            "devpts"@,
            pts,
            abi::MS_NOSUID | abi::MS_NOEXEC,
            Some("newinstance,ptmxmode=0666,mode=620"@),
            "mount dev/pts: "@,
        ),
        plain_step(ActModel::Touch(ptmx), "touch dev/ptmx: "@),
        bind_mount(paths::joined(pts, "ptmx"@), ptmx, abi::MS_BIND, "bind dev/ptmx: "@),
    ]
}

/// `/dev`.
pub open spec fn dev_steps(merged: Seq<char>) -> Seq<StepModel> {
    let dev = paths::joined(merged, "dev"@);
    seq![
        plain_step(ActModel::MakeDirs(dev), "mkdir dev: "@),
        fresh_mount(
            "tmpfs"@,
            dev,
            abi::MS_NOSUID | abi::MS_NODEV,
            Some("size=67108864,mode=755"@),
            "mount dev (tmpfs): "@,
        ),
    ] + devices_steps(dev, device_names()) + pts_steps(dev)
}

/// Appends a step.
pub fn push_plain(out: &mut Vec<Step>, act: Act, lead: &str)
    ensures
        compile::views(final(out)@) == compile::views(old(out)@).push(plain_step(act@, lead@)),
{
    let ghost done = compile::views(out@);
    out.push(Step::new(act, Blame::Plain, lead));
    proof {
        assert(compile::views(out@) =~= done.push(plain_step(act@, lead@)));
    }
}

/// Appends steps.
pub fn push_steps(out: &mut Vec<Step>, more: Vec<Step>)
    ensures
        compile::views(final(out)@) == compile::views(old(out)@) + compile::views(more@),
{
    let ghost done = compile::views(out@);
    let mut rest = more;
    out.append(&mut rest);
    proof {
        assert(compile::views(out@) =~= done + compile::views(more@));
    }
}

/// Appends the mount of a file system of its own.
fn push_fresh(out: &mut Vec<Step>, fstype: &str, target: &str, flags: u64, data: Option<String>, lead: &str)
    ensures
        compile::views(final(out)@) == compile::views(old(out)@).push(
            fresh_mount(fstype@, target@, flags, text::opt(data), lead@),
        ),
{
    push_plain(
        out,
        Act::Mount {
            source: Some(fstype.to_owned()),
            target: target.to_owned(),
            fstype: Some(fstype.to_owned()),
            flags,
            data,
        },
        lead,
    );
}

/// Appends the mount of one file on another.
fn push_bind(out: &mut Vec<Step>, source: String, target: &str, flags: u64, lead: &str)
    ensures
        compile::views(final(out)@) == compile::views(old(out)@).push(bind_mount(source@, target@, flags, lead@)),
{
    push_plain(
        out,
        Act::Mount { source: Some(source), target: target.to_owned(), fstype: None, flags, data: None },
        lead,
    );
}

/// How to keep mounts from showing outside.
pub fn remount_root_private() -> (r: Vec<Step>)
    ensures
        compile::views(r@) == private_steps(),
{
    let mut v: Vec<Step> = Vec::new();
    push_plain(
        &mut v,
        Act::Mount {
            source: None,
            target: "/".to_owned(),
            fstype: None,
            flags: abi::MS_REC | abi::MS_PRIVATE,
            data: None,
        },
        "remount / private: ",
    );
    proof {
        assert(compile::views(v@) =~= private_steps());
    }
    v
}

/// How to move into the new root.
pub fn pivot_into(new_root: &str) -> (r: Vec<Step>)
    ensures
        compile::views(r@) == pivot_steps(new_root@),
{
    let mut v: Vec<Step> = Vec::new();
    push_plain(&mut v, Act::ChangeDir(new_root.to_owned()), "chdir(new_root): ");
    push_plain(&mut v, Act::PivotRoot { new_root: ".".to_owned(), put_old: ".".to_owned() }, "pivot_root: ");
    push_plain(
        &mut v,
        Act::Unmount { target: ".".to_owned(), options: abi::MNT_DETACH },
        "umount2(old root, MNT_DETACH): ",
    );
    push_plain(&mut v, Act::ChangeDir("/".to_owned()), "chdir(/): ");
    proof {
        assert(compile::views(v@) =~= pivot_steps(new_root@));
    }
    v
}

/// How to mount `/proc`.
pub fn mount_proc(merged: &str) -> (r: Vec<Step>)
    ensures
        compile::views(r@) == proc_steps(merged@),
{
    let mut v: Vec<Step> = Vec::new();
    let target = paths::join(merged, "proc");
    push_plain(&mut v, Act::MakeDirs(target.clone()), "mkdir proc: ");
    push_fresh(
        &mut v,
        "proc",
        target.as_str(),
        abi::MS_NOSUID | abi::MS_NODEV | abi::MS_NOEXEC,
        Some("hidepid=2,subset=pid".to_owned()),
        "mount proc: ",
    );
    proof {
        assert(compile::views(v@) =~= proc_steps(merged@));
    }
    v
}

/// How to mount `/sys`.
pub fn mount_sys(merged: &str) -> (r: Vec<Step>)
    ensures
        compile::views(r@) == sys_steps(merged@),
{
    let mut v: Vec<Step> = Vec::new();
    let target = paths::join(merged, "sys");
    push_plain(&mut v, Act::MakeDirs(target.clone()), "mkdir sys: ");
    push_fresh(
        &mut v,
        "sysfs",
        target.as_str(),
        abi::MS_RDONLY | abi::MS_NOSUID | abi::MS_NODEV | abi::MS_NOEXEC,
        None,
        "mount sys: ",
    );
    proof {
        assert(compile::views(v@) =~= sys_steps(merged@));
    }
    v
}

/// How to mount `/tmp`.
pub fn mount_tmp(merged: &str) -> (r: Vec<Step>)
    ensures
        compile::views(r@) == tmp_steps(merged@),
{
    let mut v: Vec<Step> = Vec::new();
    let target = paths::join(merged, "tmp");
    push_plain(&mut v, Act::MakeDirs(target.clone()), "mkdir tmp: ");
    push_fresh(
        &mut v,
        "tmpfs",
        target.as_str(),
        abi::MS_NOSUID | abi::MS_NODEV | abi::MS_NOEXEC,
        Some("size=536870912,mode=1777".to_owned()),
        "mount tmp: ",
    );
    proof {
        assert(compile::views(v@) =~= tmp_steps(merged@));
    }
    v
}

/// How to put a device node of the host under the new root.
pub fn bind_host_dev(dev: &str, name: &str) -> (r: Vec<Step>)
    ensures
        compile::views(r@) == device_steps(dev@, name@),
{
    let mut v: Vec<Step> = Vec::new();
    let node = paths::join(dev, name);
    push_plain(&mut v, Act::Touch(node.clone()), text::cat3("touch dev/", name, ": ").as_str());
    let mut source = "/dev/".to_owned();
    source.append(name);
    push_bind(
        &mut v,
        source,
        node.as_str(),
        abi::MS_BIND | abi::MS_RDONLY,
        text::cat3("bind dev/", name, ": ").as_str(),
    );
    proof {
        assert(compile::views(v@) =~= device_steps(dev@, name@));
    }
    v
}

/// How to make the terminals of `/dev`.
fn mount_pts(dev: &str) -> (r: Vec<Step>)
    ensures
        compile::views(r@) == pts_steps(dev@),
{
    let mut v: Vec<Step> = Vec::new();
    let pts = paths::join(dev, "pts");
    let ptmx = paths::join(dev, "ptmx");
    push_plain(&mut v, Act::MakeDirs(pts.clone()), "mkdir dev/pts: ");
    push_fresh(
        &mut v,
        "devpts",
        pts.as_str(),
        abi::MS_NOSUID | abi::MS_NOEXEC,
        Some("newinstance,ptmxmode=0666,mode=620".to_owned()),
        "mount dev/pts: ",
    );
    push_plain(&mut v, Act::Touch(ptmx.clone()), "touch dev/ptmx: ");
    push_bind(&mut v, paths::join(pts.as_str(), "ptmx"), ptmx.as_str(), abi::MS_BIND, "bind dev/ptmx: ");
    proof {
        assert(compile::views(v@) =~= pts_steps(dev@));
    }
    v
}

/// How to mount `/dev`.
pub fn mount_dev(merged: &str) -> (r: Vec<Step>)
    ensures
        compile::views(r@) == dev_steps(merged@),
{
    let mut v: Vec<Step> = Vec::new();
    let dev = paths::join(merged, "dev");
    push_plain(&mut v, Act::MakeDirs(dev.clone()), "mkdir dev: ");
    push_fresh(
        &mut v,
        "tmpfs",
        dev.as_str(),
        abi::MS_NOSUID | abi::MS_NODEV,
        Some("size=67108864,mode=755".to_owned()),
        "mount dev (tmpfs): ",
    );
    let ghost lead = compile::views(v@);
    let names: [&str; 6] = ["null", "zero", "full", "random", "urandom", "tty"];
    let ghost all = device_names();
    let mut i: usize = 0;
    proof {
        assert(devices_steps(dev@, all.take(0)) =~= Seq::<StepModel>::empty());
        assert(compile::views(v@) =~= lead + devices_steps(dev@, all.take(0)));
    }
    while i < 6
        invariant
            i <= 6,
            all == device_names(),
            names@.len() == 6,
            forall|k: int| 0 <= k < 6 ==> (#[trigger] names@[k])@ == all[k],
            compile::views(v@) == lead + devices_steps(dev@, all.take(i as int)),
        decreases 6 - i,
    {
        let ghost done = devices_steps(dev@, all.take(i as int));
        let name: &str = names[i];
        push_steps(&mut v, bind_host_dev(dev.as_str(), name));
        proof {
            assert(all.take(i + 1).drop_last() =~= all.take(i as int));
            assert(all.take(i + 1).last() == name@);
            assert(compile::views(v@) =~= lead + (done + device_steps(dev@, name@)));
        }
        i = i + 1;
    }
    push_steps(&mut v, mount_pts(dev.as_str()));
    proof {
        assert(all.take(6) =~= all);
        assert(compile::views(v@) =~= dev_steps(merged@));
    }
    v
}

} // verus!
